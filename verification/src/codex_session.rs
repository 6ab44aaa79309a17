//! Reading the log of an agent session: what each entry says of the
//! session, and the session that the log comes to.

use crate::codex_monitor::{
    is_busy, session_state, state_at, truncate_text, truncated, SessionTracker, TrackerView,
};
use crate::json::{
    as_text, json_of, json_string, json_text, json_view, member, parse_json, text_member, Json,
    JsonView,
};
use crate::models::{CodexMonitorSession, CodexMonitorState};
use crate::text::{
    ascii_lowercase, chars_of, contains, contains_text, is_text, push_chars, str_eq, string_of,
    text_of, to_ascii_lowercase, trim, trim_slice,
};
use vstd::prelude::*;
use vstd::utf8::encode_utf8;

verus! {

/// The longest line of a log that is read, in bytes.
pub const MAX_JSON_LINE_BYTES: usize = 2_097_152;

pub open spec fn opt_text(o: Option<String>) -> Option<Seq<char>> {
    match o {
        Some(s) => Some(s@),
        None => None,
    }
}

pub open spec fn opt_str(o: Option<&str>) -> Option<Seq<char>> {
    match o {
        Some(s) => Some(s@),
        None => None,
    }
}

pub open spec fn opt_json(o: Option<&Json>) -> Option<JsonView> {
    match o {
        Some(j) => Some(json_view(*j)),
        None => None,
    }
}

/// What `DateTime::parse_from_rfc3339` and `timestamp_millis` make of a
/// text: the instant that the text names, in milliseconds since the epoch;
/// nothing of a text that is no RFC 3339 time.
pub uninterp spec fn rfc3339_instant(text: Seq<char>) -> Option<i64>;

/// `chrono::DateTime::parse_from_rfc3339`, the instant taken in
/// milliseconds: a function of the text alone.
#[verifier::external_body]
pub(crate) fn rfc3339_millis(text: &str) -> (r: Option<i64>)
    ensures
        r == rfc3339_instant(text@),
{
    chrono::DateTime::parse_from_rfc3339(text).ok().map(|instant| instant.timestamp_millis())
}

/// What `Path::file_name` makes of a path: its last component, by the
/// rules of the platform that the library is built for; nothing of a path
/// that ends in `..` or has no component.
pub uninterp spec fn file_name_of_path(path: Seq<char>) -> Option<Seq<char>>;

/// `std::path::Path::file_name`, as text: a function of the path alone.
#[verifier::external_body]
pub(crate) fn path_file_name(path: &str) -> (r: Option<String>)
    ensures
        opt_text(r) == file_name_of_path(path@),
{
    std::path::Path::new(path).file_name().and_then(|name| name.to_str()).map(
        |name| name.to_string(),
    )
}

pub open spec fn later(a: i64, b: i64) -> i64 {
    if a >= b {
        a
    } else {
        b
    }
}

fn max_of(a: i64, b: i64) -> (r: i64)
    ensures
        r == later(a, b),
{
    if a >= b {
        a
    } else {
        b
    }
}

/// The instant that a value names, if it is a string that names one.
pub open spec fn instant(value: JsonView) -> Option<i64> {
    match as_text(value) {
        Some(t) => rfc3339_instant(t),
        None => None,
    }
}

/// The instant that a member of a value names.
pub open spec fn member_instant(value: JsonView, key: Seq<char>) -> Option<i64> {
    match member(value, key) {
        Some(m) => instant(m),
        None => None,
    }
}

pub fn parse_timestamp(value: &Json) -> (r: Option<i64>)
    ensures
        r == instant(json_view(*value)),
{
    match value.as_str() {
        Some(text) => rfc3339_millis(text),
        None => None,
    }
}

fn timestamp_member(value: &Json, key: &str) -> (r: Option<i64>)
    ensures
        r == member_instant(json_view(*value), key@),
{
    match value.get(key) {
        Some(m) => parse_timestamp(m),
        None => None,
    }
}

/// `s` trimmed, where that leaves anything.
pub open spec fn filled(s: Seq<char>) -> Option<Seq<char>> {
    if trim(s).len() > 0 {
        Some(trim(s))
    } else {
        None
    }
}

/// The text of a member that is a string, trimmed, where that leaves
/// anything.
pub open spec fn filled_member(value: JsonView, key: Seq<char>) -> Option<Seq<char>> {
    match text_member(value, key) {
        Some(t) => filled(t),
        None => None,
    }
}

fn filled_text(s: &str) -> (r: Option<String>)
    ensures
        opt_text(r) == filled(s@),
{
    let chars = chars_of(s);
    let trimmed = trim_slice(chars.as_slice());
    if trimmed.len() > 0 {
        Some(string_of(trimmed))
    } else {
        None
    }
}

fn filled_member_text(value: &Json, key: &str) -> (r: Option<String>)
    ensures
        opt_text(r) == filled_member(json_view(*value), key@),
{
    match value.get_str(key) {
        Some(t) => filled_text(t),
        None => None,
    }
}

/// Whether the serialization of a value, in lower case, holds `needle`.
pub open spec fn says(value: JsonView, needle: Seq<char>) -> bool {
    contains(ascii_lowercase(json_text(value)), needle)
}

/// Whether an entry speaks of an error: it is flagged as one, or its
/// serialization says so.
pub open spec fn indicates_error(value: JsonView) -> bool {
    member(value, "is_error"@) == Some(JsonView::Bool(true)) || says(value, "\"error\""@)
        || says(value, "failed"@) || says(value, "exception"@) || says(value, "traceback"@)
}

/// Whether an entry asks for the user.
pub open spec fn indicates_attention(value: JsonView) -> bool {
    says(value, "request_user_input"@) || says(value, "needs_attention"@) || says(
        value,
        "awaiting_user_input"@,
    ) || says(value, "requires_confirmation"@) || says(value, "approval"@)
}

pub fn entry_indicates_error(value: &Json) -> (r: bool)
    ensures
        r == indicates_error(json_view(*value)),
{
    let flagged = match value.get("is_error") {
        Some(flag) => flag.is_true(),
        None => false,
    };
    if flagged {
        return true;
    }
    let text = json_string(value);
    let chars = chars_of(text.as_str());
    let lower_chars = to_ascii_lowercase(chars.as_slice());
    let lower = lower_chars.as_slice();
    contains_text(lower, "\"error\"") || contains_text(lower, "failed") || contains_text(
        lower,
        "exception",
    ) || contains_text(lower, "traceback")
}

pub fn entry_indicates_needs_attention(value: &Json) -> (r: bool)
    ensures
        r == indicates_attention(json_view(*value)),
{
    let text = json_string(value);
    let chars = chars_of(text.as_str());
    let lower_chars = to_ascii_lowercase(chars.as_slice());
    let lower = lower_chars.as_slice();
    contains_text(lower, "request_user_input") || contains_text(lower, "needs_attention")
        || contains_text(lower, "awaiting_user_input") || contains_text(
        lower,
        "requires_confirmation",
    ) || contains_text(lower, "approval")
}

/// The text that the items of an array show first: of each item in turn
/// its `text`, then its `content`, where that is a string that is not
/// blank.
pub open spec fn first_item_text(items: Seq<JsonView>, i: int) -> Option<Seq<char>>
    decreases items.len() - i,
{
    if i < 0 || i >= items.len() {
        None
    } else if filled_member(items[i], "text"@) is Some {
        filled_member(items[i], "text"@)
    } else if filled_member(items[i], "content"@) is Some {
        filled_member(items[i], "content"@)
    } else {
        first_item_text(items, i + 1)
    }
}

/// What the member `key` of an object shows of itself.
pub open spec fn shown_by(members: Seq<(Seq<char>, JsonView)>, key: Seq<char>) -> Option<Seq<char>>
    decreases members, 0nat,
{
    let i = crate::json::seek_member(members, key, 0);
    if 0 <= i < members.len() {
        preview(members[i].1)
    } else {
        None
    }
}

/// The text that a value shows of itself: a string its text, trimmed; an
/// array the first text of its items; an object what its `text`,
/// `content`, `message` or `output` shows, in this order.
pub open spec fn preview(value: JsonView) -> Option<Seq<char>>
    decreases value, 1nat,
{
    match value {
        JsonView::Text(t) => filled(t),
        JsonView::Array(items) => first_item_text(items, 0),
        JsonView::Object(members) => if shown_by(members, "text"@) is Some {
            shown_by(members, "text"@)
        } else if shown_by(members, "content"@) is Some {
            shown_by(members, "content"@)
        } else if shown_by(members, "message"@) is Some {
            shown_by(members, "message"@)
        } else {
            shown_by(members, "output"@)
        },
        _ => None,
    }
}

/// What a member of a value shows of itself.
pub open spec fn member_preview(value: JsonView, key: Seq<char>) -> Option<Seq<char>> {
    match member(value, key) {
        Some(m) => preview(m),
        None => None,
    }
}

fn item_text(items: &Vec<Json>) -> (r: Option<String>)
    ensures
        opt_text(r) == first_item_text(json_view(Json::Array(*items))->Array_0, 0),
{
    let ghost views = json_view(Json::Array(*items))->Array_0;
    let mut i: usize = 0;
    while i < items.len()
        invariant
            i <= items.len(),
            views == json_view(Json::Array(*items))->Array_0,
            views.len() == items@.len(),
            forall|k: int| 0 <= k < items@.len() ==> (#[trigger] views[k]) == json_view(
                items@[k],
            ),
            first_item_text(views, 0) == first_item_text(views, i as int),
        decreases items.len() - i,
    {
        assert(views[i as int] == json_view(items@[i as int]));
        if let Some(text) = filled_member_text(&items[i], "text") {
            return Some(text);
        }
        if let Some(text) = filled_member_text(&items[i], "content") {
            return Some(text);
        }
        i += 1;
    }
    None
}

fn shown_by_member(members: &Vec<(String, Json)>, key: &str) -> (r: Option<String>)
    ensures
        opt_text(r) == shown_by(json_view(Json::Object(*members))->Object_0, key@),
    decreases members, 0nat,
{
    let ghost views = json_view(Json::Object(*members))->Object_0;
    let mut i: usize = 0;
    while i < members.len() && !str_eq(members[i].0.as_str(), key)
        invariant
            i <= members.len(),
            views.len() == members@.len(),
            forall|k: int| 0 <= k < members@.len() ==> (#[trigger] views[k]) == (
                members@[k].0@,
                json_view(members@[k].1),
            ),
            crate::json::seek_member(views, key@, 0) == crate::json::seek_member(
                views,
                key@,
                i as int,
            ),
        decreases members.len() - i,
    {
        assert(views[i as int].0 == members@[i as int].0@);
        i += 1;
    }
    if i < members.len() {
        assert(views[i as int] == (members@[i as int].0@, json_view(members@[i as int].1)));
        value_to_preview_text(&members[i].1)
    } else {
        None
    }
}

/// The text that a value shows of itself.
pub fn value_to_preview_text(value: &Json) -> (r: Option<String>)
    ensures
        opt_text(r) == preview(json_view(*value)),
    decreases value, 1nat,
{
    match value {
        Json::Text(t) => filled_text(t.as_str()),
        Json::Array(items) => item_text(items),
        Json::Object(members) => {
            if let Some(text) = shown_by_member(members, "text") {
                return Some(text);
            }
            if let Some(text) = shown_by_member(members, "content") {
                return Some(text);
            }
            if let Some(text) = shown_by_member(members, "message") {
                return Some(text);
            }
            shown_by_member(members, "output")
        },
        _ => None,
    }
}

fn preview_member(value: &Json, key: &str) -> (r: Option<String>)
    ensures
        opt_text(r) == member_preview(json_view(*value), key@),
{
    match value.get(key) {
        Some(m) => value_to_preview_text(m),
        None => None,
    }
}

/// What a message shows of itself: its `message`, else its `content`, else
/// its `output`.
pub open spec fn message_preview(payload: JsonView) -> Option<Seq<char>> {
    if member_preview(payload, "message"@) is Some {
        member_preview(payload, "message"@)
    } else if member_preview(payload, "content"@) is Some {
        member_preview(payload, "content"@)
    } else {
        member_preview(payload, "output"@)
    }
}

pub fn extract_message_preview(payload: &Json) -> (r: Option<String>)
    ensures
        opt_text(r) == message_preview(json_view(*payload)),
{
    if let Some(text) = preview_member(payload, "message") {
        return Some(text);
    }
    if let Some(text) = preview_member(payload, "content") {
        return Some(text);
    }
    preview_member(payload, "output")
}

/// What the user said: the `message` or the `text` of the entry where
/// that is a string that is not blank, else what the entry shows of
/// itself.
pub open spec fn user_message(payload: JsonView) -> Option<Seq<char>> {
    if filled_member(payload, "message"@) is Some {
        filled_member(payload, "message"@)
    } else if filled_member(payload, "text"@) is Some {
        filled_member(payload, "text"@)
    } else {
        message_preview(payload)
    }
}

pub fn extract_user_message_text(payload: &Json) -> (r: Option<String>)
    ensures
        opt_text(r) == user_message(json_view(*payload)),
{
    if let Some(text) = filled_member_text(payload, "message") {
        return Some(text);
    }
    if let Some(text) = filled_member_text(payload, "text") {
        return Some(text);
    }
    extract_message_preview(payload)
}

/// The arguments of a function call: the `arguments` of the entry where
/// that is an object, or what it denotes where it is a string that holds
/// JSON.
pub open spec fn call_arguments(payload: JsonView) -> Option<JsonView> {
    match member(payload, "arguments"@) {
        None => None,
        Some(raw) => if raw is Object {
            Some(raw)
        } else {
            match as_text(raw) {
                Some(text) => if trim(text).len() == 0 {
                    None
                } else {
                    match json_of(trim(text)) {
                        Ok(v) => Some(v),
                        Err(_) => None,
                    }
                },
                None => None,
            }
        },
    }
}

/// The arguments of a function call as text members are read from them.
pub enum CallArguments<'a> {
    /// The entry holds them as an object.
    Held(&'a Json),
    /// The entry holds them as text, which was read.
    Read(Json),
    Missing,
}

pub open spec fn arguments_view(a: CallArguments) -> Option<JsonView> {
    match a {
        CallArguments::Held(j) => Some(json_view(*j)),
        CallArguments::Read(j) => Some(json_view(j)),
        CallArguments::Missing => None,
    }
}

pub fn parse_function_arguments<'a>(payload: &'a Json) -> (r: CallArguments<'a>)
    ensures
        arguments_view(r) == call_arguments(json_view(*payload)),
{
    let raw = match payload.get("arguments") {
        Some(raw) => raw,
        None => {
            return CallArguments::Missing;
        },
    };
    if raw.is_object() {
        return CallArguments::Held(raw);
    }
    match raw.as_str() {
        Some(text) => {
            let chars = chars_of(text);
            let trimmed = trim_slice(chars.as_slice());
            if trimmed.len() == 0 {
                return CallArguments::Missing;
            }
            let trimmed_text = string_of(trimmed);
            match parse_json(trimmed_text.as_str()) {
                Ok(v) => CallArguments::Read(v),
                Err(_) => CallArguments::Missing,
            }
        },
        None => CallArguments::Missing,
    }
}

fn argument_text(arguments: &CallArguments, key: &str) -> (r: Option<String>)
    ensures
        opt_text(r) == (match arguments_view(*arguments) {
            Some(a) => text_member(a, key@),
            None => None,
        }),
{
    let found = match arguments {
        CallArguments::Held(j) => j.get_str(key),
        CallArguments::Read(j) => j.get_str(key),
        CallArguments::Missing => None,
    };
    match found {
        Some(t) => Some(text_of(t)),
        None => None,
    }
}

pub open spec fn argument(payload: JsonView, key: Seq<char>) -> Option<Seq<char>> {
    match call_arguments(payload) {
        Some(a) => text_member(a, key),
        None => None,
    }
}

/// What a call of a tool on a path is described by: the tool, and the name
/// of the file, cut to 80 characters.
pub open spec fn path_details(function_name: Seq<char>, path: Seq<char>) -> Seq<char> {
    let file_name = match file_name_of_path(path) {
        Some(name) => name,
        None => path,
    };
    function_name + ": "@ + truncated(file_name, 80)
}

/// What a function call is described by: a shell command by the command, a
/// patch as such, a call on a `path` or a `file` by the tool and the file,
/// any other by its name. A call without a name is not described.
pub open spec fn call_details(payload: JsonView) -> Option<Seq<char>> {
    match text_member(payload, "name"@) {
        None => None,
        Some(name) => if name == "shell_command"@ && argument(payload, "command"@) is Some {
            Some("shell: "@ + truncated(argument(payload, "command"@)->0, 80))
        } else if name == "apply_patch"@ {
            Some("Applying patch"@)
        } else if argument(payload, "path"@) is Some {
            Some(path_details(name, argument(payload, "path"@)->0))
        } else if argument(payload, "file"@) is Some {
            Some(path_details(name, argument(payload, "file"@)->0))
        } else {
            Some(name)
        },
    }
}

fn concat(a: &str, b: &str) -> (r: String)
    ensures
        r@ == a@ + b@,
{
    let mut out = chars_of(a);
    let tail = chars_of(b);
    push_chars(&mut out, tail.as_slice());
    string_of(out.as_slice())
}

fn describe_path(function_name: &str, path: &str) -> (r: String)
    ensures
        r@ == path_details(function_name@, path@),
{
    let file_name = match path_file_name(path) {
        Some(name) => name,
        None => text_of(path),
    };
    let shown = truncate_text(file_name.as_str(), 80);
    let head = concat(function_name, ": ");
    concat(head.as_str(), shown.as_str())
}

pub fn build_function_call_details(payload: &Json) -> (r: Option<String>)
    ensures
        opt_text(r) == call_details(json_view(*payload)),
{
    let function_name = match payload.get_str("name") {
        Some(name) => name,
        None => {
            return None;
        },
    };
    let arguments = parse_function_arguments(payload);
    if str_eq(function_name, "shell_command") {
        if let Some(command) = argument_text(&arguments, "command") {
            let shown = truncate_text(command.as_str(), 80);
            return Some(concat("shell: ", shown.as_str()));
        }
    }
    if str_eq(function_name, "apply_patch") {
        return Some(text_of("Applying patch"));
    }
    if let Some(path) = argument_text(&arguments, "path") {
        return Some(describe_path(function_name, path.as_str()));
    }
    if let Some(path) = argument_text(&arguments, "file") {
        return Some(describe_path(function_name, path.as_str()));
    }
    Some(text_of(function_name))
}

/// The title that a session takes from what its user said first.
pub open spec fn title_of(payload: Option<JsonView>) -> Option<Seq<char>> {
    match payload {
        Some(p) => match user_message(p) {
            Some(text) => Some(truncated(text, 42)),
            None => None,
        },
        None => None,
    }
}

/// What a message shows of itself, cut to 80 characters.
pub open spec fn shown_message(payload: Option<JsonView>) -> Option<Seq<char>> {
    match payload {
        Some(p) => match message_preview(p) {
            Some(text) => Some(truncated(text, 80)),
            None => None,
        },
        None => None,
    }
}

pub open spec fn or_text(o: Option<Seq<char>>, fallback: Seq<char>) -> Option<Seq<char>> {
    match o {
        Some(t) => Some(t),
        None => Some(fallback),
    }
}

/// The tracker once the user has spoken at `ts`.
pub open spec fn user_spoke(t: TrackerView, payload: Option<JsonView>, ts: i64) -> TrackerView {
    TrackerView {
        last_user_ts: later(t.last_user_ts, ts),
        session_title: if t.session_title is None {
            title_of(payload)
        } else {
            t.session_title
        },
        ..t
    }
}

/// The tracker after an entry of a kind that is not known: what the entry
/// says of itself decides, and of an error and a need for attention the
/// error shows.
pub open spec fn after_unknown(t: TrackerView, payload: Option<JsonView>, ts: i64) -> TrackerView {
    match payload {
        None => t,
        Some(p) => {
            let attended = if indicates_attention(p) {
                TrackerView {
                    last_needs_attention_ts: later(t.last_needs_attention_ts, ts),
                    details: Some("等待用户处理"@),
                    ..t
                }
            } else {
                t
            };
            if indicates_error(p) {
                TrackerView {
                    last_error_ts: later(attended.last_error_ts, ts),
                    details: Some("任务执行出现错误"@),
                    ..attended
                }
            } else {
                attended
            }
        },
    }
}

pub open spec fn payload_type(payload: Option<JsonView>, key: Seq<char>) -> Seq<char> {
    match payload {
        Some(p) => match text_member(p, key) {
            Some(t) => t,
            None => seq![],
        },
        None => seq![],
    }
}

/// The tracker after an event message.
pub open spec fn after_event(t: TrackerView, payload: Option<JsonView>, ts: i64) -> TrackerView {
    let kind = payload_type(payload, "type"@);
    if kind == "user_message"@ {
        TrackerView { details: Some("Processing user message"@), ..user_spoke(t, payload, ts) }
    } else if kind == "agent_message"@ {
        TrackerView {
            last_assistant_ts: later(t.last_assistant_ts, ts),
            last_agent_activity_ts: later(t.last_agent_activity_ts, ts),
            details: or_text(shown_message(payload), "生成回复中"@),
            ..t
        }
    } else if kind == "agent_reasoning"@ || kind == "token_count"@ {
        TrackerView {
            last_agent_activity_ts: later(t.last_agent_activity_ts, ts),
            details: Some("运行中"@),
            ..t
        }
    } else if kind == "turn_aborted"@ {
        TrackerView {
            last_abort_ts: later(t.last_abort_ts, ts),
            details: Some("任务已中止"@),
            ..t
        }
    } else if kind == "turn_error"@ || kind == "error"@ {
        TrackerView {
            last_error_ts: later(t.last_error_ts, ts),
            details: match shown_message(payload) {
                Some(text) => Some("错误: "@ + text),
                None => Some("任务执行出现错误"@),
            },
            ..t
        }
    } else if kind == "needs_attention"@ || kind == "awaiting_user_input"@ {
        TrackerView {
            last_needs_attention_ts: later(t.last_needs_attention_ts, ts),
            details: Some("等待用户处理"@),
            ..t
        }
    } else {
        after_unknown(t, payload, ts)
    }
}

/// Whether a function call asks the user for something, by its name.
pub open spec fn asks_user(payload: Option<JsonView>) -> bool {
    payload is Some && ({
        let name = ascii_lowercase(payload_type(payload, "name"@));
        name == "request_user_input"@ || contains(name, "approval"@) || contains(name, "confirm"@)
    })
}

/// The tracker after a response item.
pub open spec fn after_response(t: TrackerView, payload: Option<JsonView>, ts: i64) -> TrackerView {
    let kind = payload_type(payload, "type"@);
    if kind == "function_call"@ {
        TrackerView {
            last_agent_activity_ts: later(t.last_agent_activity_ts, ts),
            details: or_text(
                match payload {
                    Some(p) => call_details(p),
                    None => None,
                },
                "工具调用中"@,
            ),
            last_needs_attention_ts: if asks_user(payload) {
                later(t.last_needs_attention_ts, ts)
            } else {
                t.last_needs_attention_ts
            },
            ..t
        }
    } else if kind == "function_call_output"@ {
        let active = TrackerView {
            last_agent_activity_ts: later(t.last_agent_activity_ts, ts),
            ..t
        };
        if payload is Some && indicates_error(payload->0) {
            TrackerView {
                last_error_ts: later(t.last_error_ts, ts),
                details: Some("工具调用失败"@),
                ..active
            }
        } else {
            active
        }
    } else if kind == "message"@ {
        let role = payload_type(payload, "role"@);
        if role == "user"@ {
            user_spoke(t, payload, ts)
        } else if role == "assistant"@ {
            TrackerView {
                last_assistant_ts: later(t.last_assistant_ts, ts),
                last_agent_activity_ts: later(t.last_agent_activity_ts, ts),
                details: or_text(shown_message(payload), "回复已生成"@),
                ..t
            }
        } else {
            t
        }
    } else if kind == "reasoning"@ {
        TrackerView {
            last_agent_activity_ts: later(t.last_agent_activity_ts, ts),
            details: Some("运行中"@),
            ..t
        }
    } else {
        after_unknown(t, payload, ts)
    }
}

/// The tracker after a turn context: the model and the effort that it
/// names are taken over.
pub open spec fn after_context(t: TrackerView, payload: Option<JsonView>) -> TrackerView {
    match payload {
        None => t,
        Some(p) => TrackerView {
            model: if filled_member(p, "model"@) is Some {
                filled_member(p, "model"@)
            } else {
                t.model
            },
            effort: if filled_member(p, "effort"@) is Some {
                filled_member(p, "effort"@)
            } else {
                t.effort
            },
            ..t
        },
    }
}

/// The time of an entry: its own `timestamp`, else that of its payload,
/// else 0.
pub open spec fn entry_time(entry: JsonView) -> i64 {
    match member_instant(entry, "timestamp"@) {
        Some(ts) => ts,
        None => match member(entry, "payload"@) {
            Some(p) => match member_instant(p, "timestamp"@) {
                Some(ts) => ts,
                None => 0,
            },
            None => 0,
        },
    }
}

/// The tracker after one entry of the log.
pub open spec fn after_entry(t: TrackerView, entry: JsonView) -> TrackerView {
    let ts = entry_time(entry);
    let payload = member(entry, "payload"@);
    let seen = TrackerView { last_activity_at: later(t.last_activity_at, ts), ..t };
    let kind = match text_member(entry, "type"@) {
        Some(k) => k,
        None => seq![],
    };
    if kind == "event_msg"@ {
        after_event(seen, payload, ts)
    } else if kind == "response_item"@ {
        after_response(seen, payload, ts)
    } else if kind == "turn_context"@ {
        after_context(seen, payload)
    } else if indicates_error(entry) {
        TrackerView {
            last_error_ts: later(seen.last_error_ts, ts),
            details: or_text(seen.details, "任务执行出现错误"@),
            ..seen
        }
    } else {
        seen
    }
}

fn text_member_or_empty(payload: Option<&Json>, key: &str) -> (r: String)
    ensures
        r@ == payload_type(opt_json(payload), key@),
{
    match payload {
        Some(p) => match p.get_str(key) {
            Some(t) => text_of(t),
            None => String::new(),
        },
        None => String::new(),
    }
}

fn title_from(payload: Option<&Json>) -> (r: Option<String>)
    ensures
        opt_text(r) == title_of(opt_json(payload)),
{
    match payload {
        Some(p) => match extract_user_message_text(p) {
            Some(text) => Some(truncate_text(text.as_str(), 42)),
            None => None,
        },
        None => None,
    }
}

fn message_from(payload: Option<&Json>) -> (r: Option<String>)
    ensures
        opt_text(r) == shown_message(opt_json(payload)),
{
    match payload {
        Some(p) => match extract_message_preview(p) {
            Some(text) => Some(truncate_text(text.as_str(), 80)),
            None => None,
        },
        None => None,
    }
}

fn note_user(payload: Option<&Json>, timestamp: i64, tracker: &mut SessionTracker)
    ensures
        final(tracker)@ == user_spoke(old(tracker)@, opt_json(payload), timestamp),
{
    tracker.last_user_ts = max_of(tracker.last_user_ts, timestamp);
    if tracker.session_title.is_none() {
        tracker.session_title = title_from(payload);
    }
}

fn note_unknown(payload: Option<&Json>, timestamp: i64, tracker: &mut SessionTracker)
    ensures
        final(tracker)@ == after_unknown(old(tracker)@, opt_json(payload), timestamp),
{
    if let Some(value) = payload {
        if entry_indicates_needs_attention(value) {
            tracker.last_needs_attention_ts = max_of(tracker.last_needs_attention_ts, timestamp);
            tracker.details = Some(text_of("等待用户处理"));
        }
        if entry_indicates_error(value) {
            tracker.last_error_ts = max_of(tracker.last_error_ts, timestamp);
            tracker.details = Some(text_of("任务执行出现错误"));
        }
    }
}

pub fn process_event_msg(payload: Option<&Json>, timestamp: i64, tracker: &mut SessionTracker)
    ensures
        final(tracker)@ == after_event(old(tracker)@, opt_json(payload), timestamp),
{
    let kind = text_member_or_empty(payload, "type");
    let kind = kind.as_str();
    if str_eq(kind, "user_message") {
        note_user(payload, timestamp, tracker);
        tracker.details = Some(text_of("Processing user message"));
    } else if str_eq(kind, "agent_message") {
        tracker.last_assistant_ts = max_of(tracker.last_assistant_ts, timestamp);
        tracker.last_agent_activity_ts = max_of(tracker.last_agent_activity_ts, timestamp);
        tracker.details = match message_from(payload) {
            Some(text) => Some(text),
            None => Some(text_of("生成回复中")),
        };
    } else if str_eq(kind, "agent_reasoning") || str_eq(kind, "token_count") {
        tracker.last_agent_activity_ts = max_of(tracker.last_agent_activity_ts, timestamp);
        tracker.details = Some(text_of("运行中"));
    } else if str_eq(kind, "turn_aborted") {
        tracker.last_abort_ts = max_of(tracker.last_abort_ts, timestamp);
        tracker.details = Some(text_of("任务已中止"));
    } else if str_eq(kind, "turn_error") || str_eq(kind, "error") {
        tracker.last_error_ts = max_of(tracker.last_error_ts, timestamp);
        tracker.details = match message_from(payload) {
            Some(text) => Some(concat("错误: ", text.as_str())),
            None => Some(text_of("任务执行出现错误")),
        };
    } else if str_eq(kind, "needs_attention") || str_eq(kind, "awaiting_user_input") {
        tracker.last_needs_attention_ts = max_of(tracker.last_needs_attention_ts, timestamp);
        tracker.details = Some(text_of("等待用户处理"));
    } else {
        note_unknown(payload, timestamp, tracker);
    }
}

fn call_asks_user(payload: Option<&Json>) -> (r: bool)
    ensures
        r == asks_user(opt_json(payload)),
{
    if payload.is_none() {
        return false;
    }
    let name = text_member_or_empty(payload, "name");
    let chars = chars_of(name.as_str());
    let lower = to_ascii_lowercase(chars.as_slice());
    is_text(lower.as_slice(), "request_user_input") || contains_text(
        lower.as_slice(),
        "approval",
    ) || contains_text(lower.as_slice(), "confirm")
}

pub fn process_response_item(payload: Option<&Json>, timestamp: i64, tracker: &mut SessionTracker)
    ensures
        final(tracker)@ == after_response(old(tracker)@, opt_json(payload), timestamp),
{
    let kind = text_member_or_empty(payload, "type");
    let kind = kind.as_str();
    if str_eq(kind, "function_call") {
        tracker.last_agent_activity_ts = max_of(tracker.last_agent_activity_ts, timestamp);
        let described = match payload {
            Some(p) => build_function_call_details(p),
            None => None,
        };
        tracker.details = match described {
            Some(text) => Some(text),
            None => Some(text_of("工具调用中")),
        };
        if call_asks_user(payload) {
            tracker.last_needs_attention_ts = max_of(tracker.last_needs_attention_ts, timestamp);
        }
    } else if str_eq(kind, "function_call_output") {
        tracker.last_agent_activity_ts = max_of(tracker.last_agent_activity_ts, timestamp);
        let failed = match payload {
            Some(p) => entry_indicates_error(p),
            None => false,
        };
        if failed {
            tracker.last_error_ts = max_of(tracker.last_error_ts, timestamp);
            tracker.details = Some(text_of("工具调用失败"));
        }
    } else if str_eq(kind, "message") {
        let role = text_member_or_empty(payload, "role");
        if str_eq(role.as_str(), "user") {
            note_user(payload, timestamp, tracker);
        } else if str_eq(role.as_str(), "assistant") {
            tracker.last_assistant_ts = max_of(tracker.last_assistant_ts, timestamp);
            tracker.last_agent_activity_ts = max_of(tracker.last_agent_activity_ts, timestamp);
            tracker.details = match message_from(payload) {
                Some(text) => Some(text),
                None => Some(text_of("回复已生成")),
            };
        }
    } else if str_eq(kind, "reasoning") {
        tracker.last_agent_activity_ts = max_of(tracker.last_agent_activity_ts, timestamp);
        tracker.details = Some(text_of("运行中"));
    } else {
        note_unknown(payload, timestamp, tracker);
    }
}

pub fn process_turn_context(payload: Option<&Json>, tracker: &mut SessionTracker)
    ensures
        final(tracker)@ == after_context(old(tracker)@, opt_json(payload)),
{
    let payload = match payload {
        Some(p) => p,
        None => {
            return ;
        },
    };
    if let Some(model) = filled_member_text(payload, "model") {
        tracker.model = Some(model);
    }
    if let Some(effort) = filled_member_text(payload, "effort") {
        tracker.effort = Some(effort);
    }
}

fn time_of(entry: &Json) -> (r: i64)
    ensures
        r == entry_time(json_view(*entry)),
{
    if let Some(ts) = timestamp_member(entry, "timestamp") {
        return ts;
    }
    match entry.get("payload") {
        Some(p) => match timestamp_member(p, "timestamp") {
            Some(ts) => ts,
            None => 0,
        },
        None => 0,
    }
}

/// Takes one entry of the log into account.
pub fn process_entry(value: &Json, tracker: &mut SessionTracker)
    ensures
        final(tracker)@ == after_entry(old(tracker)@, json_view(*value)),
{
    let payload = value.get("payload");
    let timestamp = time_of(value);
    if timestamp > tracker.last_activity_at {
        tracker.last_activity_at = timestamp;
    }
    let kind = match value.get_str("type") {
        Some(k) => text_of(k),
        None => String::new(),
    };
    let kind = kind.as_str();
    if str_eq(kind, "event_msg") {
        process_event_msg(payload, timestamp, tracker);
    } else if str_eq(kind, "response_item") {
        process_response_item(payload, timestamp, tracker);
    } else if str_eq(kind, "turn_context") {
        process_turn_context(payload, tracker);
    } else if entry_indicates_error(value) {
        tracker.last_error_ts = max_of(tracker.last_error_ts, timestamp);
        if tracker.details.is_none() {
            tracker.details = Some(text_of("任务执行出现错误"));
        }
    }
}

/// What the first line of a log says of its session.
#[derive(Debug, Clone, PartialEq, Eq)]
pub struct SessionMeta {
    pub id: String,
    pub cwd: String,
    pub cli_version: Option<String>,
    pub started_at: i64,
}

pub struct MetaView {
    pub id: Seq<char>,
    pub cwd: Seq<char>,
    pub cli_version: Option<Seq<char>>,
    pub started_at: i64,
}

impl View for SessionMeta {
    type V = MetaView;

    open spec fn view(&self) -> MetaView {
        MetaView {
            id: self.id@,
            cwd: self.cwd@,
            cli_version: opt_text(self.cli_version),
            started_at: self.started_at,
        }
    }
}

pub open spec fn meta_result(r: Result<SessionMeta, String>) -> Result<MetaView, Seq<char>> {
    match r {
        Ok(m) => Ok(m@),
        Err(e) => Err(e@),
    }
}

/// The identifier of a session: the one that its log names, where that is
/// not empty; else the one that stands in for it.
pub open spec fn session_id(payload: JsonView, fallback: Option<Seq<char>>) -> Option<Seq<char>> {
    match text_member(payload, "id"@) {
        Some(id) => if id.len() > 0 {
            Some(id)
        } else {
            fallback
        },
        None => fallback,
    }
}

/// When a session started: as its payload says, else as its first line
/// says, else when its file was changed last, else 0.
pub open spec fn started_at(entry: JsonView, payload: JsonView, modified: Option<i64>) -> i64 {
    match member_instant(payload, "timestamp"@) {
        Some(ts) => ts,
        None => match member_instant(entry, "timestamp"@) {
            Some(ts) => ts,
            None => match modified {
                Some(m) => m,
                None => 0,
            },
        },
    }
}

/// What the first line of a log says of its session, or why it says
/// nothing.
pub open spec fn session_meta(
    first_line: Seq<char>,
    fallback_id: Option<Seq<char>>,
    modified: Option<i64>,
) -> Result<MetaView, Seq<char>> {
    if trim(first_line).len() == 0 {
        Err("会话文件为空"@)
    } else {
        match json_of(first_line) {
            Err(e) => Err("解析会话首行失败: "@ + e),
            Ok(entry) => if text_member(entry, "type"@) != Some("session_meta"@) {
                Err("会话首行不是 session_meta"@)
            } else {
                match member(entry, "payload"@) {
                    None => Err("session_meta 缺少 payload"@),
                    Some(payload) => match session_id(payload, fallback_id) {
                        None => Err("session_meta 缺少 id"@),
                        Some(id) => Ok(
                            MetaView {
                                id,
                                cwd: match text_member(payload, "cwd"@) {
                                    Some(c) => c,
                                    None => seq![],
                                },
                                cli_version: text_member(payload, "cli_version"@),
                                started_at: started_at(entry, payload, modified),
                            },
                        ),
                    },
                }
            },
        }
    }
}

/// Reads the first line of a log. `fallback_id` is the name of the file
/// without its extension, `modified` the time at which the file was
/// changed last, where they are known.
pub fn read_session_meta(first_line: &str, fallback_id: Option<&str>, modified: Option<i64>) -> (r:
    Result<SessionMeta, String>)
    ensures
        meta_result(r) == session_meta(first_line@, opt_str(fallback_id), modified),
{
    let chars = chars_of(first_line);
    if trim_slice(chars.as_slice()).len() == 0 {
        return Err(text_of("会话文件为空"));
    }
    let entry = match parse_json(first_line) {
        Ok(v) => v,
        Err(e) => {
            return Err(concat("解析会话首行失败: ", e.as_str()));
        },
    };
    let is_meta = match entry.get_str("type") {
        Some(t) => str_eq(t, "session_meta"),
        None => false,
    };
    if !is_meta {
        return Err(text_of("会话首行不是 session_meta"));
    }
    let payload = match entry.get("payload") {
        Some(p) => p,
        None => {
            return Err(text_of("session_meta 缺少 payload"));
        },
    };
    let named = match payload.get_str("id") {
        Some(id) => if id.is_empty() {
            None
        } else {
            Some(id)
        },
        None => None,
    };
    let id = match named {
        Some(id) => text_of(id),
        None => match fallback_id {
            Some(id) => text_of(id),
            None => {
                return Err(text_of("session_meta 缺少 id"));
            },
        },
    };
    let cwd = match payload.get_str("cwd") {
        Some(c) => text_of(c),
        None => String::new(),
    };
    let cli_version = match payload.get_str("cli_version") {
        Some(v) => Some(text_of(v)),
        None => None,
    };
    let started = match timestamp_member(payload, "timestamp") {
        Some(ts) => ts,
        None => match timestamp_member(&entry, "timestamp") {
            Some(ts) => ts,
            None => match modified {
                Some(m) => m,
                None => 0,
            },
        },
    };
    Ok(SessionMeta { id, cwd, cli_version, started_at: started })
}

pub open spec fn texts(items: Seq<String>) -> Seq<Seq<char>> {
    Seq::new(items.len(), |i: int| items[i]@)
}

/// The tracker after one line of the log: a line that is blank, too long
/// or no JSON changes nothing.
pub open spec fn after_line(t: TrackerView, line: Seq<char>) -> TrackerView {
    if trim(line).len() == 0 || encode_utf8(line).len() > MAX_JSON_LINE_BYTES {
        t
    } else {
        match json_of(line) {
            Ok(entry) => after_entry(t, entry),
            Err(_) => t,
        }
    }
}

/// The tracker after the lines of the log.
pub open spec fn after_lines(t: TrackerView, lines: Seq<Seq<char>>) -> TrackerView
    decreases lines.len(),
{
    if lines.len() == 0 {
        t
    } else {
        after_line(after_lines(t, lines.drop_last()), lines.last())
    }
}

/// A tracker that has seen nothing but the start of the session.
pub open spec fn fresh_tracker(started_at: i64) -> TrackerView {
    TrackerView {
        last_activity_at: started_at,
        last_user_ts: 0,
        last_assistant_ts: 0,
        last_abort_ts: 0,
        last_agent_activity_ts: 0,
        last_error_ts: 0,
        last_needs_attention_ts: 0,
        session_title: None,
        details: None,
        model: None,
        effort: None,
    }
}

/// The tracker of a session once its log is read: where the log names no
/// time at all, the session was last active when its file was changed.
pub open spec fn tracker_of(started_at: i64, lines: Seq<Seq<char>>, modified: Option<i64>) -> TrackerView {
    let read = after_lines(fresh_tracker(started_at), lines);
    if read.last_activity_at <= 0 && modified is Some {
        TrackerView { last_activity_at: modified->0, ..read }
    } else {
        read
    }
}

pub struct SessionView {
    pub id: Seq<char>,
    pub cwd: Seq<char>,
    pub cli_version: Option<Seq<char>>,
    pub model: Option<Seq<char>>,
    pub effort: Option<Seq<char>>,
    pub started_at: i64,
    pub last_activity_at: i64,
    pub state: CodexMonitorState,
    pub is_running: bool,
    pub session_title: Option<Seq<char>>,
    pub details: Option<Seq<char>>,
}

impl View for CodexMonitorSession {
    type V = SessionView;

    open spec fn view(&self) -> SessionView {
        SessionView {
            id: self.id@,
            cwd: self.cwd@,
            cli_version: opt_text(self.cli_version),
            model: opt_text(self.model),
            effort: opt_text(self.effort),
            started_at: self.started_at,
            last_activity_at: self.last_activity_at,
            state: self.state,
            is_running: self.is_running,
            session_title: opt_text(self.session_title),
            details: opt_text(self.details),
        }
    }
}

pub open spec fn session_result(r: Result<CodexMonitorSession, String>) -> Result<
    SessionView,
    Seq<char>,
> {
    match r {
        Ok(s) => Ok(s@),
        Err(e) => Err(e@),
    }
}

/// Takes one line of the log into account.
pub fn process_line(line: &str, tracker: &mut SessionTracker)
    ensures
        final(tracker)@ == after_line(old(tracker)@, line@),
{
    let chars = chars_of(line);
    if trim_slice(chars.as_slice()).len() > 0 && line.as_bytes().len() <= MAX_JSON_LINE_BYTES {
        match parse_json(line) {
            Ok(entry) => {
                process_entry(&entry, tracker);
            },
            Err(_) => {},
        }
    }
}

/// The session that a log comes to: what its first line says of it, what
/// its entries have shown, and the state that follows from the times of
/// what they have shown. A session that works says so.
pub open spec fn session_of(
    meta: MetaView,
    t: TrackerView,
    now: i64,
    is_codex_running: bool,
) -> SessionView {
    let state = state_at(t, now, is_codex_running);
    SessionView {
        id: meta.id,
        cwd: meta.cwd,
        cli_version: meta.cli_version,
        model: t.model,
        effort: t.effort,
        started_at: meta.started_at,
        last_activity_at: t.last_activity_at,
        state,
        is_running: is_busy(state),
        session_title: t.session_title,
        details: if state == CodexMonitorState::Working {
            Some("运行中"@)
        } else {
            t.details
        },
    }
}

/// Reads the log of a session: its first line, and the lines at its end.
/// `fallback_id` and `modified` are as for `read_session_meta`.
pub fn parse_session_file(
    first_line: &str,
    tail_lines: &Vec<String>,
    fallback_id: Option<&str>,
    modified: Option<i64>,
    now_ms: i64,
    is_codex_running: bool,
) -> (r: Result<CodexMonitorSession, String>)
    ensures
        session_result(r) == (match session_meta(first_line@, opt_str(fallback_id), modified) {
            Err(e) => Err::<SessionView, Seq<char>>(e),
            Ok(meta) => Ok(
                session_of(
                    meta,
                    tracker_of(meta.started_at, texts(tail_lines@), modified),
                    now_ms,
                    is_codex_running,
                ),
            ),
        }),
{
    let meta = match read_session_meta(first_line, fallback_id, modified) {
        Ok(m) => m,
        Err(e) => {
            return Err(e);
        },
    };
    let mut tracker = SessionTracker {
        last_activity_at: meta.started_at,
        last_user_ts: 0,
        last_assistant_ts: 0,
        last_abort_ts: 0,
        last_agent_activity_ts: 0,
        last_error_ts: 0,
        last_needs_attention_ts: 0,
        session_title: None,
        details: None,
        model: None,
        effort: None,
    };
    let mut i: usize = 0;
    assert(texts(tail_lines@).subrange(0, 0) =~= Seq::<Seq<char>>::empty());
    while i < tail_lines.len()
        invariant
            i <= tail_lines.len(),
            tracker@ == after_lines(
                fresh_tracker(meta.started_at),
                texts(tail_lines@).subrange(0, i as int),
            ),
        decreases tail_lines.len() - i,
    {
        let ghost after = texts(tail_lines@).subrange(0, i + 1);
        assert(after.drop_last() =~= texts(tail_lines@).subrange(0, i as int));
        assert(after.last() == tail_lines@[i as int]@);
        process_line(tail_lines[i].as_str(), &mut tracker);
        i += 1;
    }
    assert(texts(tail_lines@).subrange(0, tail_lines@.len() as int) =~= texts(tail_lines@));
    if tracker.last_activity_at <= 0 {
        if let Some(m) = modified {
            tracker.last_activity_at = m;
        }
    }
    let state = session_state(&tracker, now_ms, is_codex_running);
    let working = match state {
        CodexMonitorState::Working => true,
        _ => false,
    };
    if working {
        tracker.details = Some(text_of("运行中"));
    }
    let is_running = match state {
        CodexMonitorState::Working => true,
        CodexMonitorState::NeedsAttention => true,
        CodexMonitorState::Error => true,
        _ => false,
    };
    Ok(
        CodexMonitorSession {
            id: meta.id,
            cwd: meta.cwd,
            cli_version: meta.cli_version,
            model: tracker.model,
            effort: tracker.effort,
            started_at: meta.started_at,
            last_activity_at: tracker.last_activity_at,
            state,
            is_running,
            session_title: tracker.session_title,
            details: tracker.details,
        },
    )
}

} // verus!
