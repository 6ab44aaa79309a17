//! Control line classifier: one line of the multiplexer's control-mode
//! stream in, one typed event out.

use crate::reassembly::{decode_tmux_output, decoded_output};
use crate::text::{
    is_space, is_word, lemma_next_word,
    after_prefix, chars_of, find_text, has_prefix, next_token, nth_token, nth_token_span, seek_char,
    seek_char_from, seek_text, starts_with, string_of, strip_prefix, token_span, trim, trim_slice,
    trim_start, trim_start_slice,
};
use vstd::prelude::*;

verus! {

/// The three fields that identify one command response.
#[derive(Debug, Clone, PartialEq, Eq)]
pub struct ResponseBlock {
    pub id: String,
    pub number: String,
    pub flags: String,
}

pub struct BlockView {
    pub id: Seq<char>,
    pub number: Seq<char>,
    pub flags: Seq<char>,
}

impl View for ResponseBlock {
    type V = BlockView;

    open spec fn view(&self) -> BlockView {
        BlockView { id: self.id@, number: self.number@, flags: self.flags@ }
    }
}

impl ResponseBlock {
    /// Two blocks name the same response when all three fields agree.
    pub fn same_as(&self, other: &ResponseBlock) -> (r: bool)
        ensures
            r == (self@ == other@),
    {
        self.id == other.id && self.number == other.number && self.flags == other.flags
    }
}

pub open spec fn opt_text(o: Option<String>) -> Option<Seq<char>> {
    match o {
        Some(s) => Some(s@),
        None => None,
    }
}

/// A state-change notification: its kind, and the fields that the kind fills.
#[derive(Debug, Clone, PartialEq, Eq)]
pub struct TmuxStatePayload {
    pub kind: String,
    pub session_id: Option<String>,
    pub session_name: Option<String>,
    pub window_id: Option<String>,
    pub window_name: Option<String>,
    pub window_index: Option<String>,
    pub pane_id: Option<String>,
    pub client: Option<String>,
    pub message: Option<String>,
    pub buffer_name: Option<String>,
    pub subscription_name: Option<String>,
    pub subscription_value: Option<String>,
    pub layout: Option<String>,
    pub visible_layout: Option<String>,
    pub window_flags: Option<String>,
    pub reason: Option<String>,
}

pub struct StateView {
    pub kind: Seq<char>,
    pub session_id: Option<Seq<char>>,
    pub session_name: Option<Seq<char>>,
    pub window_id: Option<Seq<char>>,
    pub window_name: Option<Seq<char>>,
    pub window_index: Option<Seq<char>>,
    pub pane_id: Option<Seq<char>>,
    pub client: Option<Seq<char>>,
    pub message: Option<Seq<char>>,
    pub buffer_name: Option<Seq<char>>,
    pub subscription_name: Option<Seq<char>>,
    pub subscription_value: Option<Seq<char>>,
    pub layout: Option<Seq<char>>,
    pub visible_layout: Option<Seq<char>>,
    pub window_flags: Option<Seq<char>>,
    pub reason: Option<Seq<char>>,
}

impl View for TmuxStatePayload {
    type V = StateView;

    open spec fn view(&self) -> StateView {
        StateView {
            kind: self.kind@,
            session_id: opt_text(self.session_id),
            session_name: opt_text(self.session_name),
            window_id: opt_text(self.window_id),
            window_name: opt_text(self.window_name),
            window_index: opt_text(self.window_index),
            pane_id: opt_text(self.pane_id),
            client: opt_text(self.client),
            message: opt_text(self.message),
            buffer_name: opt_text(self.buffer_name),
            subscription_name: opt_text(self.subscription_name),
            subscription_value: opt_text(self.subscription_value),
            layout: opt_text(self.layout),
            visible_layout: opt_text(self.visible_layout),
            window_flags: opt_text(self.window_flags),
            reason: opt_text(self.reason),
        }
    }
}

/// A notification of the given kind with no field filled.
pub open spec fn blank_state(kind: Seq<char>) -> StateView {
    StateView {
        kind,
        session_id: None,
        session_name: None,
        window_id: None,
        window_name: None,
        window_index: None,
        pane_id: None,
        client: None,
        message: None,
        buffer_name: None,
        subscription_name: None,
        subscription_value: None,
        layout: None,
        visible_layout: None,
        window_flags: None,
        reason: None,
    }
}

pub fn new_state_payload(kind: &str) -> (payload: TmuxStatePayload)
    ensures
        payload@ == blank_state(kind@),
{
    TmuxStatePayload {
        kind: string_of(chars_of(kind).as_slice()),
        session_id: None,
        session_name: None,
        window_id: None,
        window_name: None,
        window_index: None,
        pane_id: None,
        client: None,
        message: None,
        buffer_name: None,
        subscription_name: None,
        subscription_value: None,
        layout: None,
        visible_layout: None,
        window_flags: None,
        reason: None,
    }
}

/// One classified line of the control stream.
#[derive(Debug, PartialEq, Eq)]
pub enum ControlLine {
    Output { pane_id: String, data: String },
    State { payload: TmuxStatePayload },
    Begin { block: ResponseBlock },
    End { block: ResponseBlock, is_error: bool },
    Exit { reason: Option<String> },
    Unknown,
}

pub enum LineView {
    Output { pane_id: Seq<char>, data: Seq<char> },
    State { payload: StateView },
    Begin { block: BlockView },
    End { block: BlockView, is_error: bool },
    Exit { reason: Option<Seq<char>> },
    Unknown,
}

impl View for ControlLine {
    type V = LineView;

    open spec fn view(&self) -> LineView {
        match self {
            ControlLine::Output { pane_id, data } => LineView::Output {
                pane_id: pane_id@,
                data: data@,
            },
            ControlLine::State { payload } => LineView::State { payload: payload@ },
            ControlLine::Begin { block } => LineView::Begin { block: block@ },
            ControlLine::End { block, is_error } => LineView::End {
                block: block@,
                is_error: *is_error,
            },
            ControlLine::Exit { reason } => LineView::Exit { reason: opt_text(*reason) },
            ControlLine::Unknown => LineView::Unknown,
        }
    }
}

/// `s` itself where it is not empty.
pub open spec fn nonempty(s: Seq<char>) -> Option<Seq<char>> {
    if s.len() > 0 {
        Some(s)
    } else {
        None
    }
}

/// What stands before the first space of `s`, and what stands after it where
/// there is a space.
pub open spec fn cut_at_space(s: Seq<char>) -> (Seq<char>, Option<Seq<char>>) {
    let k = seek_char(s, ' ', 0);
    if k < s.len() {
        (s.subrange(0, k), Some(s.subrange(k + 1, s.len() as int)))
    } else {
        (s, None)
    }
}

/// The block that a framing line names: its second, third and fourth word.
pub open spec fn block_of(line: Seq<char>) -> Option<BlockView> {
    match (nth_token(line, 1), nth_token(line, 2), nth_token(line, 3)) {
        (Some(id), Some(number), Some(flags)) => Some(BlockView { id, number, flags }),
        _ => None,
    }
}

/// The metadata and the free-form value of a line that separates the two by
/// `" : "`; a bare `" :"` separates too, and then the value loses its leading
/// white space. Without a separator the whole input is metadata.
pub open spec fn meta_and_value(s: Seq<char>) -> (Seq<char>, Seq<char>) {
    let wide = " : "@;
    let narrow = " :"@;
    let i = seek_text(s, wide, 0);
    let j = seek_text(s, narrow, 0);
    if i <= s.len() {
        (s.subrange(0, i), s.subrange(i + wide.len(), s.len() as int))
    } else if j <= s.len() {
        (s.subrange(0, j), trim_start(s.subrange(j + narrow.len(), s.len() as int)))
    } else {
        (s, seq![])
    }
}

/// The word that starts at or after `from`, and where the search for the
/// next one goes on.
pub fn take_word(s: &[char], from: usize) -> (r: (Option<String>, usize))
    requires
        from <= s.len(),
    ensures
        r.1 <= s.len(),
        match token_span(s@, from as int) {
            Some((a, b)) => opt_text(r.0) == Some(s@.subrange(a, b)) && r.1 == b,
            None => r.0 is None && r.1 == from,
        },
{
    match next_token(s, from) {
        Some((a, b)) => (Some(string_of(&s[a..b])), b),
        None => (None, from),
    }
}

/// The text of `s` where it is not empty.
pub fn text_if_any(s: &[char]) -> (r: Option<String>)
    ensures
        opt_text(r) == nonempty(s@),
{
    if s.len() > 0 {
        Some(string_of(s))
    } else {
        None
    }
}

pub fn split_at_space(s: &[char]) -> (r: (String, Option<String>))
    ensures
        (r.0@, opt_text(r.1)) == cut_at_space(s@),
{
    let k = seek_char_from(s, ' ', 0);
    if k < s.len() {
        (string_of(&s[0..k]), Some(string_of(&s[k + 1..s.len()])))
    } else {
        assert(s@.subrange(0, s@.len() as int) =~= s@);
        (string_of(s), None)
    }
}

pub fn parse_response_block(line: &[char]) -> (r: Option<ResponseBlock>)
    ensures
        match r {
            Some(block) => block_of(line@) == Some(block@),
            None => block_of(line@) is None,
        },
{
    proof {
        reveal_with_fuel(nth_token_span, 5);
    }
    let (first, at1) = take_word(line, 0);
    if first.is_none() {
        return None;
    }
    let (id, at2) = take_word(line, at1);
    let (number, at3) = take_word(line, at2);
    let (flags, _at4) = take_word(line, at3);
    match (id, number, flags) {
        (Some(id), Some(number), Some(flags)) => Some(ResponseBlock { id, number, flags }),
        _ => None,
    }
}

pub fn split_control_meta_and_value(input: &[char]) -> (r: (&[char], &[char]))
    ensures
        (r.0@, r.1@) == meta_and_value(input@),
{
    let wide = chars_of(" : ");
    let narrow = chars_of(" :");
    let n = input.len();
    match find_text(input, wide.as_slice(), 0) {
        Some(i) => (&input[0..i], &input[i + wide.len()..n]),
        None => match find_text(input, narrow.as_slice(), 0) {
            Some(j) => (&input[0..j], trim_start_slice(&input[j + narrow.len()..n])),
            None => {
                assert(input@.subrange(0, n as int) =~= input@);
                (input, &input[n..n])
            },
        },
    }
}

pub open spec fn or_empty(o: Option<Seq<char>>) -> Seq<char> {
    match o {
        Some(s) => s,
        None => seq![],
    }
}

/// A notification of the given kind that carries the window named by the
/// first word of `rest`.
pub open spec fn window_state(kind: Seq<char>, rest: Seq<char>) -> LineView {
    LineView::State { payload: StateView { window_id: nth_token(rest, 0), ..blank_state(kind) } }
}

/// A notification of the given kind that carries a window and, after the
/// first space, the window's name, which may itself hold spaces.
pub open spec fn renamed_state(kind: Seq<char>, rest: Seq<char>) -> LineView {
    let (id, name) = cut_at_space(rest);
    LineView::State {
        payload: StateView { window_id: Some(id), window_name: name, ..blank_state(kind) },
    }
}

/// A notification of the given kind that carries the pane named by the first
/// word of `rest`.
pub open spec fn pane_state(kind: Seq<char>, rest: Seq<char>) -> LineView {
    LineView::State { payload: StateView { pane_id: nth_token(rest, 0), ..blank_state(kind) } }
}

/// A notification of the given kind whose message is all of `rest`, trimmed.
pub open spec fn message_state(kind: Seq<char>, rest: Seq<char>) -> LineView {
    LineView::State {
        payload: StateView { message: nonempty(trim(rest)), ..blank_state(kind) },
    }
}

/// A notification of the given kind whose buffer name is all of `rest`,
/// trimmed.
pub open spec fn buffer_state(kind: Seq<char>, rest: Seq<char>) -> LineView {
    LineView::State {
        payload: StateView { buffer_name: nonempty(trim(rest)), ..blank_state(kind) },
    }
}

/// `%output <pane> <data>`
pub open spec fn output_line(rest: Seq<char>) -> LineView {
    let (first, second) = cut_at_space(rest);
    let pane_id = trim(first);
    if pane_id.len() == 0 {
        LineView::Unknown
    } else {
        LineView::Output { pane_id, data: decoded_output(or_empty(second)) }
    }
}

/// `%extended-output <pane> <age> ... : <data>`
pub open spec fn extended_output_line(rest: Seq<char>) -> LineView {
    let (meta, raw) = meta_and_value(rest);
    match nth_token(meta, 0) {
        Some(pane_id) => LineView::Output { pane_id, data: decoded_output(raw) },
        None => LineView::Unknown,
    }
}

/// `%layout-change <window> <layout> <visible layout> <flags>`
pub open spec fn layout_line(rest: Seq<char>) -> LineView {
    LineView::State {
        payload: StateView {
            window_id: nth_token(rest, 0),
            layout: nth_token(rest, 1),
            visible_layout: nth_token(rest, 2),
            window_flags: nth_token(rest, 3),
            ..blank_state("layout-change"@)
        },
    }
}

/// `%window-pane-changed <window> <pane>`
pub open spec fn window_pane_line(rest: Seq<char>) -> LineView {
    LineView::State {
        payload: StateView {
            window_id: nth_token(rest, 0),
            pane_id: nth_token(rest, 1),
            ..blank_state("window-pane-changed"@)
        },
    }
}

/// `%session-changed <session> <name>`
pub open spec fn session_changed_line(rest: Seq<char>) -> LineView {
    let (id, name) = cut_at_space(rest);
    LineView::State {
        payload: StateView {
            session_id: Some(id),
            session_name: name,
            ..blank_state("session-changed"@)
        },
    }
}

/// `%client-session-changed <client> <session> <name>`
pub open spec fn client_session_line(rest: Seq<char>) -> LineView {
    let (client, tail) = cut_at_space(rest);
    let blank = blank_state("client-session-changed"@);
    match tail {
        None => LineView::State { payload: StateView { client: Some(client), ..blank } },
        Some(tail) => {
            let (id, name) = cut_at_space(tail);
            LineView::State {
                payload: StateView {
                    client: Some(client),
                    session_id: Some(id),
                    session_name: name,
                    ..blank
                },
            }
        },
    }
}

/// `%session-renamed <name>`
pub open spec fn session_renamed_line(rest: Seq<char>) -> LineView {
    LineView::State {
        payload: StateView {
            session_name: nonempty(trim(rest)),
            ..blank_state("session-renamed"@)
        },
    }
}

/// `%session-window-changed <session> <window>`
pub open spec fn session_window_line(rest: Seq<char>) -> LineView {
    LineView::State {
        payload: StateView {
            session_id: nth_token(rest, 0),
            window_id: nth_token(rest, 1),
            ..blank_state("session-window-changed"@)
        },
    }
}

/// `%client-detached <client>`
pub open spec fn client_detached_line(rest: Seq<char>) -> LineView {
    LineView::State {
        payload: StateView { client: nth_token(rest, 0), ..blank_state("client-detached"@) },
    }
}

/// `%subscription-changed <name> [session] [window] [index] [pane] : <value>`
pub open spec fn subscription_line(rest: Seq<char>) -> LineView {
    let (meta, value) = meta_and_value(rest);
    match nth_token(meta, 0) {
        None => LineView::Unknown,
        Some(name) => LineView::State {
            payload: StateView {
                subscription_name: Some(name),
                session_id: nth_token(meta, 1),
                window_id: nth_token(meta, 2),
                window_index: nth_token(meta, 3),
                pane_id: nth_token(meta, 4),
                subscription_value: nonempty(value),
                ..blank_state("subscription-changed"@)
            },
        },
    }
}

/// The reason that an `%exit` line gives, if it gives one.
pub open spec fn exit_reason(line: Seq<char>) -> Option<Seq<char>> {
    nonempty(trim(after_prefix(line, "%exit"@)))
}

/// Pane output, plain or extended.
pub open spec fn classify_output(line: Seq<char>) -> Option<LineView> {
    if has_prefix(line, "%output "@) {
        Some(output_line(after_prefix(line, "%output "@)))
    } else if has_prefix(line, "%extended-output "@) {
        Some(extended_output_line(after_prefix(line, "%extended-output "@)))
    } else {
        None
    }
}

/// Notifications about windows and their layout.
pub open spec fn classify_window(line: Seq<char>) -> Option<LineView> {
    if has_prefix(line, "%layout-change "@) {
        Some(layout_line(after_prefix(line, "%layout-change "@)))
    } else if has_prefix(line, "%window-pane-changed "@) {
        Some(window_pane_line(after_prefix(line, "%window-pane-changed "@)))
    } else if has_prefix(line, "%window-add "@) {
        Some(window_state("window-add"@, after_prefix(line, "%window-add "@)))
    } else if has_prefix(line, "%window-close "@) {
        Some(window_state("window-close"@, after_prefix(line, "%window-close "@)))
    } else if has_prefix(line, "%window-renamed "@) {
        Some(renamed_state("window-renamed"@, after_prefix(line, "%window-renamed "@)))
    } else if has_prefix(line, "%unlinked-window-add "@) {
        Some(window_state("unlinked-window-add"@, after_prefix(line, "%unlinked-window-add "@)))
    } else if has_prefix(line, "%unlinked-window-close "@) {
        Some(
            window_state("unlinked-window-close"@, after_prefix(line, "%unlinked-window-close "@)),
        )
    } else if has_prefix(line, "%unlinked-window-renamed "@) {
        Some(
            renamed_state(
                "unlinked-window-renamed"@,
                after_prefix(line, "%unlinked-window-renamed "@),
            ),
        )
    } else {
        None
    }
}

/// Notifications about sessions and clients.
pub open spec fn classify_session(line: Seq<char>) -> Option<LineView> {
    if has_prefix(line, "%session-changed "@) {
        Some(session_changed_line(after_prefix(line, "%session-changed "@)))
    } else if has_prefix(line, "%client-session-changed "@) {
        Some(client_session_line(after_prefix(line, "%client-session-changed "@)))
    } else if has_prefix(line, "%session-renamed "@) {
        Some(session_renamed_line(after_prefix(line, "%session-renamed "@)))
    } else if has_prefix(line, "%session-window-changed "@) {
        Some(session_window_line(after_prefix(line, "%session-window-changed "@)))
    } else if has_prefix(line, "%sessions-changed"@) {
        Some(LineView::State { payload: blank_state("sessions-changed"@) })
    } else if has_prefix(line, "%client-detached "@) {
        Some(client_detached_line(after_prefix(line, "%client-detached "@)))
    } else {
        None
    }
}

/// Notifications about panes, paste buffers, messages and subscriptions.
pub open spec fn classify_pane(line: Seq<char>) -> Option<LineView> {
    if has_prefix(line, "%pane-mode-changed "@) {
        Some(pane_state("pane-mode-changed"@, after_prefix(line, "%pane-mode-changed "@)))
    } else if has_prefix(line, "%pause "@) {
        Some(pane_state("pause"@, after_prefix(line, "%pause "@)))
    } else if has_prefix(line, "%continue "@) {
        Some(pane_state("continue"@, after_prefix(line, "%continue "@)))
    } else if has_prefix(line, "%paste-buffer-changed "@) {
        Some(buffer_state("paste-buffer-changed"@, after_prefix(line, "%paste-buffer-changed "@)))
    } else if has_prefix(line, "%paste-buffer-deleted "@) {
        Some(buffer_state("paste-buffer-deleted"@, after_prefix(line, "%paste-buffer-deleted "@)))
    } else if has_prefix(line, "%message "@) {
        Some(message_state("message"@, after_prefix(line, "%message "@)))
    } else if has_prefix(line, "%config-error "@) {
        Some(message_state("config-error"@, after_prefix(line, "%config-error "@)))
    } else if has_prefix(line, "%subscription-changed "@) {
        Some(subscription_line(after_prefix(line, "%subscription-changed "@)))
    } else {
        None
    }
}

/// Framing markers. A marker that does not name a block is no marker.
pub open spec fn classify_frame(line: Seq<char>) -> LineView {
    if has_prefix(line, "%begin "@) && block_of(line) is Some {
        LineView::Begin { block: block_of(line)->0 }
    } else if has_prefix(line, "%end "@) && block_of(line) is Some {
        LineView::End { block: block_of(line)->0, is_error: false }
    } else if has_prefix(line, "%error "@) && block_of(line) is Some {
        LineView::End { block: block_of(line)->0, is_error: true }
    } else if has_prefix(line, "%exit"@) {
        LineView::Exit { reason: exit_reason(line) }
    } else {
        LineView::Unknown
    }
}

/// The event that one line of the control stream stands for. The first
/// prefix that matches decides; a line that matches none, or that lacks what
/// its prefix requires, is `Unknown`.
pub open spec fn classify(line: Seq<char>) -> LineView {
    match classify_output(line) {
        Some(v) => v,
        None => match classify_window(line) {
            Some(v) => v,
            None => match classify_session(line) {
                Some(v) => v,
                None => match classify_pane(line) {
                    Some(v) => v,
                    None => classify_frame(line),
                },
            },
        },
    }
}

fn first_word(rest: &[char]) -> (r: Option<String>)
    ensures
        opt_text(r) == nth_token(rest@, 0),
{
    take_word(rest, 0).0
}

fn trimmed_if_any(rest: &[char]) -> (r: Option<String>)
    ensures
        opt_text(r) == nonempty(trim(rest@)),
{
    text_if_any(trim_slice(rest))
}

fn parse_window_state(kind: &str, rest: &[char]) -> (r: ControlLine)
    ensures
        r@ == window_state(kind@, rest@),
{
    let mut payload = new_state_payload(kind);
    payload.window_id = first_word(rest);
    ControlLine::State { payload }
}

fn parse_renamed_state(kind: &str, rest: &[char]) -> (r: ControlLine)
    ensures
        r@ == renamed_state(kind@, rest@),
{
    let (id, name) = split_at_space(rest);
    let mut payload = new_state_payload(kind);
    payload.window_id = Some(id);
    payload.window_name = name;
    ControlLine::State { payload }
}

fn parse_pane_state(kind: &str, rest: &[char]) -> (r: ControlLine)
    ensures
        r@ == pane_state(kind@, rest@),
{
    let mut payload = new_state_payload(kind);
    payload.pane_id = first_word(rest);
    ControlLine::State { payload }
}

fn parse_message_state(kind: &str, rest: &[char]) -> (r: ControlLine)
    ensures
        r@ == message_state(kind@, rest@),
{
    let mut payload = new_state_payload(kind);
    payload.message = trimmed_if_any(rest);
    ControlLine::State { payload }
}

fn parse_buffer_state(kind: &str, rest: &[char]) -> (r: ControlLine)
    ensures
        r@ == buffer_state(kind@, rest@),
{
    let mut payload = new_state_payload(kind);
    payload.buffer_name = trimmed_if_any(rest);
    ControlLine::State { payload }
}

fn parse_output(rest: &[char]) -> (r: ControlLine)
    ensures
        r@ == output_line(rest@),
{
    let k = seek_char_from(rest, ' ', 0);
    let n = rest.len();
    let pane = trim_slice(&rest[0..k]);
    if pane.len() == 0 {
        assert(rest@.subrange(0, n as int) =~= rest@);
        return ControlLine::Unknown;
    }
    let raw = if k < n {
        string_of(&rest[k + 1..n])
    } else {
        assert(rest@.subrange(0, n as int) =~= rest@);
        String::new()
    };
    let data = decode_tmux_output(raw.as_str());
    ControlLine::Output { pane_id: string_of(pane), data }
}

fn parse_extended_output(rest: &[char]) -> (r: ControlLine)
    ensures
        r@ == extended_output_line(rest@),
{
    let (meta, raw) = split_control_meta_and_value(rest);
    match first_word(meta) {
        Some(pane_id) => {
            let raw_text = string_of(raw);
            ControlLine::Output { pane_id, data: decode_tmux_output(raw_text.as_str()) }
        },
        None => ControlLine::Unknown,
    }
}

fn parse_layout(rest: &[char]) -> (r: ControlLine)
    ensures
        r@ == layout_line(rest@),
{
    proof {
        reveal_with_fuel(nth_token_span, 5);
    }
    let mut payload = new_state_payload("layout-change");
    let (w0, at0) = take_word(rest, 0);
    let (w1, at1) = take_word(rest, at0);
    let (w2, at2) = take_word(rest, at1);
    let (w3, _at3) = take_word(rest, at2);
    payload.window_id = w0;
    payload.layout = w1;
    payload.visible_layout = w2;
    payload.window_flags = w3;
    ControlLine::State { payload }
}

fn parse_window_pane(rest: &[char]) -> (r: ControlLine)
    ensures
        r@ == window_pane_line(rest@),
{
    proof {
        reveal_with_fuel(nth_token_span, 3);
    }
    let mut payload = new_state_payload("window-pane-changed");
    let (w0, at0) = take_word(rest, 0);
    let (w1, _at1) = take_word(rest, at0);
    payload.window_id = w0;
    payload.pane_id = w1;
    ControlLine::State { payload }
}

fn parse_session_changed(rest: &[char]) -> (r: ControlLine)
    ensures
        r@ == session_changed_line(rest@),
{
    let (id, name) = split_at_space(rest);
    let mut payload = new_state_payload("session-changed");
    payload.session_id = Some(id);
    payload.session_name = name;
    ControlLine::State { payload }
}

fn parse_client_session(rest: &[char]) -> (r: ControlLine)
    ensures
        r@ == client_session_line(rest@),
{
    let k = seek_char_from(rest, ' ', 0);
    let n = rest.len();
    let mut payload = new_state_payload("client-session-changed");
    if k < n {
        payload.client = Some(string_of(&rest[0..k]));
        let (id, name) = split_at_space(&rest[k + 1..n]);
        payload.session_id = Some(id);
        payload.session_name = name;
    } else {
        assert(rest@.subrange(0, n as int) =~= rest@);
        payload.client = Some(string_of(rest));
    }
    ControlLine::State { payload }
}

fn parse_session_renamed(rest: &[char]) -> (r: ControlLine)
    ensures
        r@ == session_renamed_line(rest@),
{
    let mut payload = new_state_payload("session-renamed");
    payload.session_name = trimmed_if_any(rest);
    ControlLine::State { payload }
}

fn parse_session_window(rest: &[char]) -> (r: ControlLine)
    ensures
        r@ == session_window_line(rest@),
{
    proof {
        reveal_with_fuel(nth_token_span, 3);
    }
    let mut payload = new_state_payload("session-window-changed");
    let (w0, at0) = take_word(rest, 0);
    let (w1, _at1) = take_word(rest, at0);
    payload.session_id = w0;
    payload.window_id = w1;
    ControlLine::State { payload }
}

fn parse_client_detached(rest: &[char]) -> (r: ControlLine)
    ensures
        r@ == client_detached_line(rest@),
{
    let mut payload = new_state_payload("client-detached");
    payload.client = first_word(rest);
    ControlLine::State { payload }
}

fn parse_subscription(rest: &[char]) -> (r: ControlLine)
    ensures
        r@ == subscription_line(rest@),
{
    proof {
        reveal_with_fuel(nth_token_span, 6);
    }
    let (meta, value) = split_control_meta_and_value(rest);
    let (name, at0) = take_word(meta, 0);
    if name.is_none() {
        return ControlLine::Unknown;
    }
    let (w1, at1) = take_word(meta, at0);
    let (w2, at2) = take_word(meta, at1);
    let (w3, at3) = take_word(meta, at2);
    let (w4, _at4) = take_word(meta, at3);
    let mut payload = new_state_payload("subscription-changed");
    payload.subscription_name = name;
    payload.session_id = w1;
    payload.window_id = w2;
    payload.window_index = w3;
    payload.pane_id = w4;
    payload.subscription_value = text_if_any(value);
    ControlLine::State { payload }
}

/// The reason that an `%exit` line gives; none for any other line.
pub fn parse_exit_reason(line: &[char]) -> (r: Option<String>)
    ensures
        opt_text(r) == (if has_prefix(line@, "%exit"@) {
            exit_reason(line@)
        } else {
            None
        }),
{
    match strip_prefix(line, "%exit") {
        Some(rest) => trimmed_if_any(rest),
        None => None,
    }
}

fn parse_output_kind(line: &[char]) -> (r: Option<ControlLine>)
    ensures
        match r {
            Some(v) => classify_output(line@) == Some(v@),
            None => classify_output(line@) is None,
        },
{
    if let Some(rest) = strip_prefix(line, "%output ") {
        return Some(parse_output(rest));
    }
    if let Some(rest) = strip_prefix(line, "%extended-output ") {
        return Some(parse_extended_output(rest));
    }
    None
}

fn parse_window_kind(line: &[char]) -> (r: Option<ControlLine>)
    ensures
        match r {
            Some(v) => classify_window(line@) == Some(v@),
            None => classify_window(line@) is None,
        },
{
    if let Some(rest) = strip_prefix(line, "%layout-change ") {
        return Some(parse_layout(rest));
    }
    if let Some(rest) = strip_prefix(line, "%window-pane-changed ") {
        return Some(parse_window_pane(rest));
    }
    if let Some(rest) = strip_prefix(line, "%window-add ") {
        return Some(parse_window_state("window-add", rest));
    }
    if let Some(rest) = strip_prefix(line, "%window-close ") {
        return Some(parse_window_state("window-close", rest));
    }
    if let Some(rest) = strip_prefix(line, "%window-renamed ") {
        return Some(parse_renamed_state("window-renamed", rest));
    }
    if let Some(rest) = strip_prefix(line, "%unlinked-window-add ") {
        return Some(parse_window_state("unlinked-window-add", rest));
    }
    if let Some(rest) = strip_prefix(line, "%unlinked-window-close ") {
        return Some(parse_window_state("unlinked-window-close", rest));
    }
    if let Some(rest) = strip_prefix(line, "%unlinked-window-renamed ") {
        return Some(parse_renamed_state("unlinked-window-renamed", rest));
    }
    None
}

fn parse_session_kind(line: &[char]) -> (r: Option<ControlLine>)
    ensures
        match r {
            Some(v) => classify_session(line@) == Some(v@),
            None => classify_session(line@) is None,
        },
{
    if let Some(rest) = strip_prefix(line, "%session-changed ") {
        return Some(parse_session_changed(rest));
    }
    if let Some(rest) = strip_prefix(line, "%client-session-changed ") {
        return Some(parse_client_session(rest));
    }
    if let Some(rest) = strip_prefix(line, "%session-renamed ") {
        return Some(parse_session_renamed(rest));
    }
    if let Some(rest) = strip_prefix(line, "%session-window-changed ") {
        return Some(parse_session_window(rest));
    }
    if starts_with(line, "%sessions-changed") {
        return Some(ControlLine::State { payload: new_state_payload("sessions-changed") });
    }
    if let Some(rest) = strip_prefix(line, "%client-detached ") {
        return Some(parse_client_detached(rest));
    }
    None
}

fn parse_pane_kind(line: &[char]) -> (r: Option<ControlLine>)
    ensures
        match r {
            Some(v) => classify_pane(line@) == Some(v@),
            None => classify_pane(line@) is None,
        },
{
    if let Some(rest) = strip_prefix(line, "%pane-mode-changed ") {
        return Some(parse_pane_state("pane-mode-changed", rest));
    }
    if let Some(rest) = strip_prefix(line, "%pause ") {
        return Some(parse_pane_state("pause", rest));
    }
    if let Some(rest) = strip_prefix(line, "%continue ") {
        return Some(parse_pane_state("continue", rest));
    }
    if let Some(rest) = strip_prefix(line, "%paste-buffer-changed ") {
        return Some(parse_buffer_state("paste-buffer-changed", rest));
    }
    if let Some(rest) = strip_prefix(line, "%paste-buffer-deleted ") {
        return Some(parse_buffer_state("paste-buffer-deleted", rest));
    }
    if let Some(rest) = strip_prefix(line, "%message ") {
        return Some(parse_message_state("message", rest));
    }
    if let Some(rest) = strip_prefix(line, "%config-error ") {
        return Some(parse_message_state("config-error", rest));
    }
    if let Some(rest) = strip_prefix(line, "%subscription-changed ") {
        return Some(parse_subscription(rest));
    }
    None
}

fn parse_frame_kind(line: &[char]) -> (r: ControlLine)
    ensures
        r@ == classify_frame(line@),
{
    if starts_with(line, "%begin ") {
        if let Some(block) = parse_response_block(line) {
            return ControlLine::Begin { block };
        }
    }
    if starts_with(line, "%end ") {
        if let Some(block) = parse_response_block(line) {
            return ControlLine::End { block, is_error: false };
        }
    }
    if starts_with(line, "%error ") {
        if let Some(block) = parse_response_block(line) {
            return ControlLine::End { block, is_error: true };
        }
    }
    if starts_with(line, "%exit") {
        return ControlLine::Exit { reason: parse_exit_reason(line) };
    }
    ControlLine::Unknown
}

/// Classifies the characters of one line.
pub fn classify_line(line: &[char]) -> (r: ControlLine)
    ensures
        r@ == classify(line@),
{
    if let Some(v) = parse_output_kind(line) {
        return v;
    }
    if let Some(v) = parse_window_kind(line) {
        return v;
    }
    if let Some(v) = parse_session_kind(line) {
        return v;
    }
    if let Some(v) = parse_pane_kind(line) {
        return v;
    }
    parse_frame_kind(line)
}

/// Classifies one line of the control stream. The line comes without its
/// line terminator.
pub fn parse_control_line(line: &str) -> (r: ControlLine)
    ensures
        r@ == classify(line@),
{
    let chars = chars_of(line);
    classify_line(chars.as_slice())
}

/// A framing line as the multiplexer writes it: the marker and the three
/// fields of the block, with one space between two.
pub open spec fn framing_line(marker: Seq<char>, block: BlockView) -> Seq<char> {
    marker + seq![' '] + block.id + seq![' '] + block.number + seq![' '] + block.flags
}

/// A framing line names the block that it was written for, whatever the
/// three fields are, as long as each is one word.
pub proof fn lemma_framing_line_names_block(marker: Seq<char>, block: BlockView)
    requires
        is_word(marker),
        is_word(block.id),
        is_word(block.number),
        is_word(block.flags),
    ensures
        block_of(framing_line(marker, block)) == Some(block),
        has_prefix(framing_line(marker, block), marker + seq![' ']),
{
    let line = framing_line(marker, block);
    let m = marker.len() as int;
    let a1 = m + 1;
    let b1 = a1 + block.id.len();
    let a2 = b1 + 1;
    let b2 = a2 + block.number.len();
    let a3 = b2 + 1;
    let b3 = a3 + block.flags.len();
    assert(line.len() == b3);
    assert forall|k: int| 0 <= k < m implies line[k] == marker[k] by {}
    assert(line[m] == ' ');
    assert forall|k: int| a1 <= k < b1 implies line[k] == block.id[k - a1] by {}
    assert(line[b1] == ' ');
    assert forall|k: int| a2 <= k < b2 implies line[k] == block.number[k - a2] by {}
    assert(line[b2] == ' ');
    assert forall|k: int| a3 <= k < b3 implies line[k] == block.flags[k - a3] by {}
    assert(is_space(' '));
    assert forall|k: int| 0 <= k < m implies !is_space(#[trigger] line[k]) by {
        assert(!is_space(marker[k]));
    }
    assert forall|k: int| a1 <= k < b1 implies !is_space(#[trigger] line[k]) by {
        assert(!is_space(block.id[k - a1]));
    }
    assert forall|k: int| a2 <= k < b2 implies !is_space(#[trigger] line[k]) by {
        assert(!is_space(block.number[k - a2]));
    }
    assert forall|k: int| a3 <= k < b3 implies !is_space(#[trigger] line[k]) by {
        assert(!is_space(block.flags[k - a3]));
    }
    lemma_next_word(line, 0, 0, m);
    lemma_next_word(line, m, a1, b1);
    lemma_next_word(line, b1, a2, b2);
    lemma_next_word(line, b2, a3, b3);
    reveal_with_fuel(nth_token_span, 5);
    assert(nth_token_span(line, 0, 1) == Some((a1, b1)));
    assert(nth_token_span(line, 0, 2) == Some((a2, b2)));
    assert(nth_token_span(line, 0, 3) == Some((a3, b3)));
    assert(line.subrange(a1, b1) =~= block.id);
    assert(line.subrange(a2, b2) =~= block.number);
    assert(line.subrange(a3, b3) =~= block.flags);
    assert(line.subrange(0, m + 1) =~= marker + seq![' ']);
}

} // verus!
