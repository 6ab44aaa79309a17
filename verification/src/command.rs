//! Multiplexer command lines: quoting of arguments, names of sessions, and
//! reading of the multiplexer's replies to one-shot invocations.

use crate::fields::{lines};
use crate::text::{
    chars_of, contains, contains_text, is_text, push_chars, string_of, trim, trim_slice,
};
use vstd::prelude::*;

verus! {

pub const TMUX_BIN: &'static str = "tmux";

pub const TMUX_BIN_ENV: &'static str = "DEVHAVEN_TMUX_BIN";

pub const TMUX_PANE_BORDER_STYLE: &'static str = "fg=#586e75,bg=default";

pub const TMUX_PANE_ACTIVE_BORDER_STYLE: &'static str = "fg=#268bd2,bg=default";

pub const TMUX_HISTORY_LIMIT: &'static str = "200000";

pub const LEGACY_TMUX_SESSION_PREFIX: &'static str = "devhaven_";

pub const TMUX_SESSION_PROJECT_ID_OPTION: &'static str = "@devhaven_project_id";

pub const TMUX_SESSION_PROJECT_PATH_OPTION: &'static str = "@devhaven_project_path";

pub const DEFAULT_PATH: &'static str =
    "/usr/local/bin:/usr/bin:/bin:/usr/sbin:/sbin:/opt/homebrew/bin:/opt/local/bin";

/// The texts of a list of strings.
pub open spec fn texts(items: Seq<String>) -> Seq<Seq<char>> {
    Seq::new(items.len(), |i: int| items[i]@)
}

pub open spec fn is_ascii_alnum(c: char) -> bool {
    ('0' <= c <= '9') || ('a' <= c <= 'z') || ('A' <= c <= 'Z')
}

pub fn is_ascii_alphanumeric(c: char) -> (r: bool)
    ensures
        r == is_ascii_alnum(c),
{
    ('0' <= c && c <= '9') || ('a' <= c && c <= 'z') || ('A' <= c && c <= 'Z')
}

/// The characters that may stand in a command line without quotes.
pub open spec fn is_safe_char(c: char) -> bool {
    is_ascii_alnum(c) || c == '-' || c == '_' || c == '.' || c == '/' || c == ':' || c == '@' || c
        == '%' || c == '#' || c == '{' || c == '}' || c == '=' || c == '+' || c == ','
}

pub open spec fn all_safe(s: Seq<char>) -> bool {
    forall|i: int| 0 <= i < s.len() ==> is_safe_char(#[trigger] s[i])
}

/// A character as it stands between double quotes: a backslash before a
/// backslash and before a double quote.
pub open spec fn escaped_char(c: char) -> Seq<char> {
    if c == '\\' || c == '"' {
        seq!['\\', c]
    } else {
        seq![c]
    }
}

pub open spec fn escaped(s: Seq<char>) -> Seq<char>
    decreases s.len(),
{
    if s.len() == 0 {
        seq![]
    } else {
        escaped(s.drop_last()) + escaped_char(s.last())
    }
}

/// One argument as it is written in a command line.
pub open spec fn quoted(s: Seq<char>) -> Seq<char> {
    if s.len() == 0 {
        seq!['"', '"']
    } else if all_safe(s) {
        s
    } else {
        seq!['"'] + escaped(s) + seq!['"']
    }
}

/// The command line for a list of arguments: each quoted as needed, one
/// space between two.
pub open spec fn command_string(args: Seq<Seq<char>>) -> Seq<char>
    decreases args.len(),
{
    if args.len() == 0 {
        seq![]
    } else if args.len() == 1 {
        quoted(args[0])
    } else {
        command_string(args.drop_last()) + seq![' '] + quoted(args.last())
    }
}

fn is_safe(c: char) -> (r: bool)
    ensures
        r == is_safe_char(c),
{
    is_ascii_alphanumeric(c) || c == '-' || c == '_' || c == '.' || c == '/' || c == ':' || c
        == '@' || c == '%' || c == '#' || c == '{' || c == '}' || c == '=' || c == '+' || c == ','
}

fn push_quoted(out: &mut Vec<char>, value: &[char])
    ensures
        final(out)@ == old(out)@ + quoted(value@),
{
    let n = value.len();
    if n == 0 {
        out.push('"');
        out.push('"');
        assert(out@ =~= old(out)@ + quoted(value@));
        return ;
    }
    let mut safe = true;
    let mut i: usize = 0;
    while i < n
        invariant
            i <= n,
            n == value.len(),
            safe == all_safe(value@.subrange(0, i as int)),
        decreases n - i,
    {
        let ghost before = value@.subrange(0, i as int);
        let ghost after = value@.subrange(0, i + 1);
        assert(forall|k: int| 0 <= k < before.len() ==> before[k] == after[k]);
        assert(after[i as int] == value@[i as int]);
        if !is_safe(value[i]) {
            safe = false;
        }
        i += 1;
    }
    assert(value@.subrange(0, n as int) =~= value@);
    if safe {
        push_chars(out, value);
        return ;
    }
    out.push('"');
    let ghost start = out@;
    let mut j: usize = 0;
    while j < n
        invariant
            j <= n,
            n == value.len(),
            out@ == start + escaped(value@.subrange(0, j as int)),
        decreases n - j,
    {
        let ghost after = value@.subrange(0, j + 1);
        assert(after.drop_last() =~= value@.subrange(0, j as int));
        let c = value[j];
        if c == '\\' || c == '"' {
            out.push('\\');
        }
        out.push(c);
        j += 1;
        assert(out@ =~= start + escaped(after));
    }
    out.push('"');
    assert(out@ =~= old(out)@ + quoted(value@));
}

/// One argument as it is written in a command line: as it is where every
/// character is safe, between double quotes otherwise.
pub fn tmux_quote_arg(value: &str) -> (r: String)
    ensures
        r@ == quoted(value@),
{
    let chars = chars_of(value);
    let mut out: Vec<char> = Vec::new();
    push_quoted(&mut out, chars.as_slice());
    assert(out@ =~= quoted(value@));
    string_of(out.as_slice())
}

/// The command line that stands for `args` on the control channel.
pub fn tmux_command_string(args: &Vec<String>) -> (r: String)
    ensures
        r@ == command_string(texts(args@)),
{
    let mut out: Vec<char> = Vec::new();
    let mut i: usize = 0;
    while i < args.len()
        invariant
            i <= args.len(),
            out@ == command_string(texts(args@.subrange(0, i as int))),
        decreases args.len() - i,
    {
        let ghost before = texts(args@.subrange(0, i as int));
        let ghost after = texts(args@.subrange(0, i + 1));
        assert(after.drop_last() =~= before);
        assert(after.last() == args@[i as int]@);
        if i > 0 {
            out.push(' ');
        }
        let chars = chars_of(args[i].as_str());
        push_quoted(&mut out, chars.as_slice());
        assert(out@ =~= command_string(after));
        i += 1;
    }
    assert(args@.subrange(0, args@.len() as int) =~= args@);
    string_of(out.as_slice())
}

/// Whether the multiplexer printed a flag as set.
pub open spec fn flag_is_set(value: Seq<char>) -> bool {
    value == "1"@ || value == "true"@ || value == "yes"@
}

pub fn parse_tmux_flag(value: &[char]) -> (r: bool)
    ensures
        r == flag_is_set(value@),
{
    is_text(value, "1") || is_text(value, "true") || is_text(value, "yes")
}

/// What `str::to_lowercase` makes of a text: its lower-case form by the
/// Unicode case mappings.
pub uninterp spec fn unicode_lowercase(s: Seq<char>) -> Seq<char>;

/// `str::to_lowercase`: the lower-case form of `s`, a function of `s` alone.
#[verifier::external_body]
pub(crate) fn lowercase_of(s: &str) -> (r: String)
    ensures
        r@ == unicode_lowercase(s@),
{
    s.to_lowercase()
}

/// Whether a lower-cased message says that no server is running.
pub open spec fn says_server_missing(lower: Seq<char>) -> bool {
    contains(lower, "no server running"@) || contains(lower, "failed to connect to server"@)
        || contains(lower, "no sessions"@)
}

/// Whether a lower-cased message says that the session does not exist.
pub open spec fn says_session_missing(lower: Seq<char>) -> bool {
    contains(lower, "can't find session"@) || contains(lower, "no such session"@)
}

pub fn server_missing_in(lower: &str) -> (r: bool)
    ensures
        r == says_server_missing(lower@),
{
    let chars = chars_of(lower);
    contains_text(chars.as_slice(), "no server running") || contains_text(
        chars.as_slice(),
        "failed to connect to server",
    ) || contains_text(chars.as_slice(), "no sessions")
}

pub fn session_missing_in(lower: &str) -> (r: bool)
    ensures
        r == says_session_missing(lower@),
{
    let chars = chars_of(lower);
    contains_text(chars.as_slice(), "can't find session") || contains_text(
        chars.as_slice(),
        "no such session",
    )
}

/// Whether the failure of a one-shot invocation means that no server runs.
pub fn is_tmux_server_missing_error(message: &str) -> (r: bool)
    ensures
        r == says_server_missing(unicode_lowercase(message@)),
{
    let lower = lowercase_of(message);
    server_missing_in(lower.as_str())
}

/// Whether the failure of a one-shot invocation means that the session is
/// gone.
pub fn is_tmux_session_missing_error(message: &str) -> (r: bool)
    ensures
        r == says_session_missing(unicode_lowercase(message@)),
{
    let lower = lowercase_of(message);
    session_missing_in(lower.as_str())
}

/// Whether `char::is_alphanumeric` holds of a character: whether Unicode
/// counts it as a letter or a number.
pub uninterp spec fn unicode_alphanumeric(c: char) -> bool;

/// `char::is_alphanumeric`, a function of the character alone.
#[verifier::external_body]
pub(crate) fn alphanumeric(c: char) -> (r: bool)
    ensures
        r == unicode_alphanumeric(c),
{
    c.is_alphanumeric()
}

/// A character of a project name as it stands in a session name.
pub open spec fn session_char(c: char, alphanumeric: bool) -> char {
    if alphanumeric || c == '-' || c == '_' || c == ' ' {
        c
    } else {
        '_'
    }
}

pub open spec fn session_chars(s: Seq<char>) -> Seq<char> {
    Seq::new(s.len(), |i: int| session_char(s[i], unicode_alphanumeric(s[i])))
}

/// The session name for a project name: trimmed, every character that is
/// neither a letter, a number, a hyphen, an underscore nor a space replaced
/// by an underscore; `devhaven` where nothing is left.
pub open spec fn session_name(project_name: Seq<char>) -> Seq<char> {
    let cleaned = trim(session_chars(trim(project_name)));
    if cleaned.len() == 0 {
        "devhaven"@
    } else {
        cleaned
    }
}

/// A character of a project name as it stands in a session name, given
/// whether the character is alphanumeric.
pub fn sanitize_session_char(c: char, alphanumeric: bool) -> (r: char)
    ensures
        r == session_char(c, alphanumeric),
{
    if alphanumeric || c == '-' || c == '_' || c == ' ' {
        c
    } else {
        '_'
    }
}

pub fn session_name_for_project(project_name: &str) -> (r: String)
    ensures
        r@ == session_name(project_name@),
{
    let chars = chars_of(project_name);
    let trimmed = trim_slice(chars.as_slice());
    let mut cleaned: Vec<char> = Vec::new();
    let mut i: usize = 0;
    while i < trimmed.len()
        invariant
            i <= trimmed.len(),
            cleaned@ == session_chars(trimmed@.subrange(0, i as int)),
        decreases trimmed.len() - i,
    {
        let c = trimmed[i];
        cleaned.push(sanitize_session_char(c, alphanumeric(c)));
        i += 1;
        assert(cleaned@ =~= session_chars(trimmed@.subrange(0, i as int)));
    }
    assert(trimmed@.subrange(0, trimmed@.len() as int) =~= trimmed@);
    let name = trim_slice(cleaned.as_slice());
    if name.len() == 0 {
        string_of(chars_of("devhaven").as_slice())
    } else {
        string_of(name)
    }
}

pub open spec fn legacy_char(c: char) -> char {
    if is_ascii_alnum(c) || c == '-' || c == '_' {
        c
    } else {
        '_'
    }
}

/// The name that earlier versions gave the session of a project: a fixed
/// prefix and the project's identifier, every character of it that is
/// neither an ASCII letter or digit nor a hyphen or underscore replaced by an
/// underscore.
pub open spec fn legacy_session_name(project_id: Seq<char>) -> Seq<char> {
    "devhaven_"@ + Seq::new(project_id.len(), |i: int| legacy_char(project_id[i]))
}

pub fn legacy_session_name_for_project_id(project_id: &str) -> (r: String)
    ensures
        r@ == legacy_session_name(project_id@),
{
    let chars = chars_of(project_id);
    let mut out = chars_of("devhaven_");
    let ghost prefix = out@;
    let mut i: usize = 0;
    while i < chars.len()
        invariant
            i <= chars.len(),
            out@ == prefix + Seq::new(i as nat, |k: int| legacy_char(chars@[k])),
        decreases chars.len() - i,
    {
        let c = chars[i];
        let kept = if is_ascii_alphanumeric(c) || c == '-' || c == '_' {
            c
        } else {
            '_'
        };
        out.push(kept);
        i += 1;
        assert(out@ =~= prefix + Seq::new(i as nat, |k: int| legacy_char(chars@[k])));
    }
    assert(out@ =~= legacy_session_name(project_id@));
    string_of(out.as_slice())
}

} // verus!
