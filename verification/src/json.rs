//! JSON values as the library reads them. Reading and writing JSON text is
//! left to `serde_json`; what it reads comes here as a tree of plain
//! values.

use crate::text::{str_eq};
use vstd::prelude::*;

verus! {

/// `serde_json::Value`: held only long enough to be turned into `Json`, or
/// made from one to be written.
#[verifier::external_type_specification]
#[verifier::external_body]
pub struct ExValue(serde_json::Value);

/// A JSON value. A number is kept as it is written; the members of an
/// object are kept in the order in which `serde_json` walks them.
#[derive(Debug, PartialEq, Eq)]
pub enum Json {
    Null,
    Bool(bool),
    Number(String),
    Text(String),
    Array(Vec<Json>),
    Object(Vec<(String, Json)>),
}

pub enum JsonView {
    Null,
    Bool(bool),
    Number(Seq<char>),
    Text(Seq<char>),
    Array(Seq<JsonView>),
    Object(Seq<(Seq<char>, JsonView)>),
}

pub open spec fn json_view(j: Json) -> JsonView
    decreases j,
{
    match j {
        Json::Null => JsonView::Null,
        Json::Bool(b) => JsonView::Bool(b),
        Json::Number(n) => JsonView::Number(n@),
        Json::Text(t) => JsonView::Text(t@),
        Json::Array(items) => JsonView::Array(
            Seq::new(
                items@.len(),
                |i: int|
                    if 0 <= i < items@.len() {
                        json_view(items@[i])
                    } else {
                        JsonView::Null
                    },
            ),
        ),
        Json::Object(members) => JsonView::Object(
            Seq::new(
                members@.len(),
                |i: int|
                    if 0 <= i < members@.len() {
                        (members@[i].0@, json_view(members@[i].1))
                    } else {
                        (Seq::<char>::empty(), JsonView::Null)
                    },
            ),
        ),
    }
}

pub open spec fn parsed_view(r: Result<Json, String>) -> Result<JsonView, Seq<char>> {
    match r {
        Ok(j) => Ok(json_view(j)),
        Err(e) => Err(e@),
    }
}

/// What `serde_json::from_str` makes of a text: the value that the text
/// denotes, or, of a text that is not JSON, the error in words.
pub uninterp spec fn json_of(text: Seq<char>) -> Result<JsonView, Seq<char>>;

/// What `Value::to_string` makes of a value: its serialization without
/// white space.
pub uninterp spec fn json_text(value: JsonView) -> Seq<char>;

/// Turns a `serde_json::Value` into a `Json`, node for node.
#[verifier::external_body]
pub(crate) fn to_json(value: &serde_json::Value) -> (r: Json) {
    match value {
        serde_json::Value::Null => Json::Null,
        serde_json::Value::Bool(b) => Json::Bool(*b),
        serde_json::Value::Number(n) => Json::Number(n.to_string()),
        serde_json::Value::String(s) => Json::Text(s.clone()),
        serde_json::Value::Array(a) => Json::Array(a.iter().map(to_json).collect()),
        serde_json::Value::Object(o) => Json::Object(
            o.iter().map(|(k, v)| (k.clone(), to_json(v))).collect(),
        ),
    }
}

/// Turns a `Json` into a `serde_json::Value`, node for node.
#[verifier::external_body]
pub(crate) fn from_json(value: &Json) -> (r: serde_json::Value) {
    match value {
        Json::Null => serde_json::Value::Null,
        Json::Bool(b) => serde_json::Value::Bool(*b),
        Json::Number(n) => n.parse::<serde_json::Number>().map_or(
            serde_json::Value::Null,
            serde_json::Value::Number,
        ),
        Json::Text(s) => serde_json::Value::String(s.clone()),
        Json::Array(a) => serde_json::Value::Array(a.iter().map(from_json).collect()),
        Json::Object(o) => serde_json::Value::Object(
            o.iter().map(|(k, v)| (k.clone(), from_json(v))).collect(),
        ),
    }
}

/// `serde_json::from_str`: the value that a text denotes, a function of the
/// text alone.
#[verifier::external_body]
pub(crate) fn parse_json(text: &str) -> (r: Result<Json, String>)
    ensures
        parsed_view(r) == json_of(text@),
{
    match serde_json::from_str::<serde_json::Value>(text) {
        Ok(value) => Ok(to_json(&value)),
        Err(error) => Err(error.to_string()),
    }
}

/// `Value::to_string`: the serialization of a value, a function of the
/// value alone.
#[verifier::external_body]
pub(crate) fn json_string(value: &Json) -> (r: String)
    ensures
        r@ == json_text(json_view(*value)),
{
    from_json(value).to_string()
}

/// Index of the first member named `key` at or after `i`; the length where
/// there is none.
pub open spec fn seek_member(members: Seq<(Seq<char>, JsonView)>, key: Seq<char>, i: int) -> int
    decreases members.len() - i,
{
    if 0 <= i < members.len() && members[i].0 != key {
        seek_member(members, key, i + 1)
    } else {
        i
    }
}

/// The member of an object by its name; nothing of a value that is not an
/// object.
pub open spec fn member(value: JsonView, key: Seq<char>) -> Option<JsonView> {
    match value {
        JsonView::Object(members) => {
            let i = seek_member(members, key, 0);
            if 0 <= i < members.len() {
                Some(members[i].1)
            } else {
                None
            }
        },
        _ => None,
    }
}

/// The text of a value that is a string.
pub open spec fn as_text(value: JsonView) -> Option<Seq<char>> {
    match value {
        JsonView::Text(t) => Some(t),
        _ => None,
    }
}

/// The text of a member that is a string.
pub open spec fn text_member(value: JsonView, key: Seq<char>) -> Option<Seq<char>> {
    match member(value, key) {
        Some(m) => as_text(m),
        None => None,
    }
}

pub open spec fn opt_json(o: Option<&Json>) -> Option<JsonView> {
    match o {
        Some(j) => Some(json_view(*j)),
        None => None,
    }
}

pub open spec fn opt_str(o: Option<&str>) -> Option<Seq<char>> {
    match o {
        Some(s) => Some(s@),
        None => None,
    }
}

impl Json {
    /// The member of an object by its name.
    pub fn get(&self, key: &str) -> (r: Option<&Json>)
        ensures
            opt_json(r) == member(json_view(*self), key@),
    {
        match self {
            Json::Object(members) => {
                let ghost views = json_view(*self)->Object_0;
                let mut i: usize = 0;
                while i < members.len() && !str_eq(members[i].0.as_str(), key)
                    invariant
                        i <= members.len(),
                        views.len() == members@.len(),
                        forall|k: int| 0 <= k < members@.len() ==> (#[trigger] views[k]).0
                            == members@[k].0@,
                        seek_member(views, key@, 0) == seek_member(views, key@, i as int),
                    decreases members.len() - i,
                {
                    i += 1;
                }
                if i < members.len() {
                    assert(views[i as int] == (members@[i as int].0@, json_view(members@[i as int].1)));
                    Some(&members[i].1)
                } else {
                    None
                }
            },
            _ => None,
        }
    }

    /// The text of a value that is a string.
    pub fn as_str(&self) -> (r: Option<&str>)
        ensures
            opt_str(r) == as_text(json_view(*self)),
    {
        match self {
            Json::Text(t) => Some(t.as_str()),
            _ => None,
        }
    }

    /// The text of a member that is a string.
    pub fn get_str(&self, key: &str) -> (r: Option<&str>)
        ensures
            opt_str(r) == text_member(json_view(*self), key@),
    {
        match self.get(key) {
            Some(m) => m.as_str(),
            None => None,
        }
    }

    /// Whether the value is the boolean `true`.
    pub fn is_true(&self) -> (r: bool)
        ensures
            r == (json_view(*self) == JsonView::Bool(true)),
    {
        match self {
            Json::Bool(b) => *b,
            _ => false,
        }
    }

    pub fn is_object(&self) -> (r: bool)
        ensures
            r == json_view(*self) is Object,
    {
        match self {
            Json::Object(_) => true,
            _ => false,
        }
    }
}

} // verus!
