//! Opening paths in other programs: the command lines that do it.

use crate::command::texts;
use crate::models::{EditorOpenParams, TerminalOpenParams};
use crate::text::{
    chars_of, contains, find_text, lemma_contains_iff_found, occurs_at, push_chars, same_text,
    string_of, text_of,
};
use vstd::prelude::*;

verus! {

pub open spec fn opt_text(o: Option<String>) -> Option<Seq<char>> {
    match o {
        Some(s) => Some(s@),
        None => None,
    }
}

/// `s[i..]` with every occurrence of `pat` replaced by `with`, occurrences
/// taken from the left and never overlapping.
pub open spec fn replaced_from(s: Seq<char>, pat: Seq<char>, with: Seq<char>, i: int) -> Seq<char>
    decreases s.len() - i,
{
    if i < 0 || i >= s.len() || pat.len() == 0 {
        seq![]
    } else if occurs_at(s, pat, i) {
        with + replaced_from(s, pat, with, i + pat.len())
    } else {
        seq![s[i]] + replaced_from(s, pat, with, i + 1)
    }
}

/// `s` with every occurrence of `pat` replaced by `with`; an empty pattern
/// occurs nowhere.
pub open spec fn replaced(s: Seq<char>, pat: Seq<char>, with: Seq<char>) -> Seq<char> {
    if pat.len() == 0 {
        s
    } else {
        replaced_from(s, pat, with, 0)
    }
}

/// Replaces every occurrence of a pattern.
pub fn replace_text(s: &[char], pat: &[char], with: &[char]) -> (out: Vec<char>)
    ensures
        out@ == replaced(s@, pat@, with@),
{
    let mut out: Vec<char> = Vec::new();
    let n = s.len();
    let m = pat.len();
    if m == 0 {
        push_chars(&mut out, s);
        assert(out@ =~= s@);
        return out;
    }
    let mut i: usize = 0;
    while i < n
        invariant
            i <= n,
            n == s.len(),
            m == pat.len(),
            m > 0,
            out@ + replaced_from(s@, pat@, with@, i as int) == replaced_from(s@, pat@, with@, 0),
        decreases n - i,
    {
        let ghost before = out@;
        if n - i >= m && same_text(&s[i..i + m], pat) {
            push_chars(&mut out, with);
            assert(out@ + replaced_from(s@, pat@, with@, i + m) =~= before + replaced_from(
                s@,
                pat@,
                with@,
                i as int,
            ));
            i += m;
        } else {
            out.push(s[i]);
            assert(out@ + replaced_from(s@, pat@, with@, i + 1) =~= before + replaced_from(
                s@,
                pat@,
                with@,
                i as int,
            ));
            i += 1;
        }
    }
    assert(out@ + replaced_from(s@, pat@, with@, n as int) =~= out@);
    out
}

pub open spec fn placeholder() -> Seq<char> {
    "{path}"@
}

/// Whether any of the arguments names the place for the path.
pub open spec fn any_placeholder(args: Seq<Seq<char>>) -> bool {
    exists|i: int| 0 <= i < args.len() && contains(#[trigger] args[i], placeholder())
}

/// The arguments with the path put in place.
pub open spec fn with_path(args: Seq<Seq<char>>, path: Seq<char>) -> Seq<Seq<char>> {
    Seq::new(args.len(), |i: int| replaced(args[i], placeholder(), path))
}

/// The arguments for a tool that opens `path`: the path stands wherever an
/// argument says `{path}`, and at the end where none does.
pub open spec fn command_arguments(arguments: Option<Seq<Seq<char>>>, path: Seq<char>) -> Seq<
    Seq<char>,
> {
    match arguments {
        Some(args) => if any_placeholder(args) {
            with_path(args, path)
        } else {
            with_path(args, path).push(path)
        },
        None => seq![path],
    }
}

pub open spec fn opt_args(o: Option<Vec<String>>) -> Option<Seq<Seq<char>>> {
    match o {
        Some(v) => Some(texts(v@)),
        None => None,
    }
}

pub fn build_command_arguments(arguments: Option<Vec<String>>, path: &str) -> (r: Vec<String>)
    ensures
        texts(r@) == command_arguments(opt_args(arguments), path@),
{
    let mut resolved: Vec<String> = Vec::new();
    let mut inserted_path = false;
    let path_chars = chars_of(path);
    let pattern = chars_of("{path}");
    proof {
        reveal_strlit("{path}");
    }
    match &arguments {
        Some(args) => {
            let mut i: usize = 0;
            while i < args.len()
                invariant
                    i <= args.len(),
                    pattern@ == placeholder(),
                    pattern@.len() > 0,
                    path_chars@ == path@,
                    texts(resolved@) == with_path(texts(args@), path@).subrange(0, i as int),
                    inserted_path == any_placeholder(texts(args@).subrange(0, i as int)),
                decreases args.len() - i,
            {
                let argument = chars_of(args[i].as_str());
                assert(texts(args@)[i as int] == argument@);
                let ghost before_args = texts(args@).subrange(0, i as int);
                let ghost after_args = texts(args@).subrange(0, i + 1);
                let ghost before = texts(resolved@);
                proof {
                    lemma_contains_iff_found(argument@, pattern@);
                }
                let found = find_text(argument.as_slice(), pattern.as_slice(), 0).is_some();
                let replaced = replace_text(
                    argument.as_slice(),
                    pattern.as_slice(),
                    path_chars.as_slice(),
                );
                resolved.push(string_of(replaced.as_slice()));
                assert(texts(resolved@) =~= before.push(replaced@));
                if found {
                    inserted_path = true;
                    assert(contains(after_args[i as int], placeholder()));
                } else {
                    assert forall|k: int| 0 <= k < after_args.len() && contains(
                        #[trigger] after_args[k],
                        placeholder(),
                    ) implies any_placeholder(before_args) by {
                        assert(k < i);
                        assert(before_args[k] == after_args[k]);
                    }
                }
                proof {
                    if inserted_path && !found {
                        let k = choose|k: int|
                            0 <= k < before_args.len() && contains(
                                #[trigger] before_args[k],
                                placeholder(),
                            );
                        assert(after_args[k] == before_args[k]);
                    }
                }
                i += 1;
                assert(texts(resolved@) =~= with_path(texts(args@), path@).subrange(0, i as int));
            }
            assert(texts(args@).subrange(0, args@.len() as int) =~= texts(args@));
            assert(texts(resolved@) =~= with_path(texts(args@), path@));
        },
        None => {
            assert(texts(resolved@) =~= seq![]);
        },
    }
    if !inserted_path {
        let ghost before = texts(resolved@);
        resolved.push(text_of(path));
        assert(texts(resolved@) =~= before.push(path@));
    }
    resolved
}

/// The arguments that show a path in the file manager.
pub fn open_in_finder(path: &str) -> (r: Vec<String>)
    ensures
        texts(r@) == seq!["-R"@, path@],
{
    let mut v: Vec<String> = Vec::new();
    v.push(text_of("-R"));
    v.push(text_of(path));
    assert(texts(v@) =~= seq!["-R"@, path@]);
    v
}

/// The script that opens a terminal window in a directory.
pub open spec fn terminal_script(path: Seq<char>) -> Seq<char> {
    "tell application \"Terminal\"\n    do script \"cd \\\""@ + replaced(
        path,
        seq!['"'],
        seq!['\\', '"'],
    ) + "\\\"\"\n    activate\nend tell"@
}

/// How a terminal is opened in a directory.
#[derive(Debug, Clone, PartialEq, Eq)]
pub enum TerminalLaunch {
    /// By the user's own tool, with these arguments.
    Tool { command_path: String, arguments: Vec<String> },
    /// By a script for the system's terminal.
    Script { script: String },
    /// By whatever the system opens the path with.
    Default { path: String },
}

/// Decides how a terminal is opened: by the user's tool where one is
/// configured, else by script on macOS, else by the system's default.
pub fn open_in_terminal(params: TerminalOpenParams, is_macos: bool) -> (r: TerminalLaunch)
    ensures
        match r {
            TerminalLaunch::Tool { command_path, arguments } => params.command_path == Some(
                command_path,
            ) && texts(arguments@) == command_arguments(
                opt_args(params.arguments),
                params.path@,
            ),
            TerminalLaunch::Script { script } => params.command_path is None && is_macos
                && script@ == terminal_script(params.path@),
            TerminalLaunch::Default { path } => params.command_path is None && !is_macos && path
                == params.path,
        },
{
    if let Some(command_path) = params.command_path {
        let arguments = build_command_arguments(params.arguments, params.path.as_str());
        return TerminalLaunch::Tool { command_path, arguments };
    }
    if is_macos {
        let path = chars_of(params.path.as_str());
        let quote: Vec<char> = vec!['"'];
        let escaped_quote: Vec<char> = vec!['\\', '"'];
        let escaped = replace_text(path.as_slice(), quote.as_slice(), escaped_quote.as_slice());
        let mut script = chars_of("tell application \"Terminal\"\n    do script \"cd \\\"");
        push_chars(&mut script, escaped.as_slice());
        let tail = chars_of("\\\"\"\n    activate\nend tell");
        push_chars(&mut script, tail.as_slice());
        assert(quote@ =~= seq!['"']);
        assert(escaped_quote@ =~= seq!['\\', '"']);
        return TerminalLaunch::Script { script: string_of(script.as_slice()) };
    }
    TerminalLaunch::Default { path: params.path }
}

/// One way to open a path in an editor: a program and its arguments.
#[derive(Debug, Clone, PartialEq, Eq)]
pub struct EditorAttempt {
    pub program: String,
    pub arguments: Vec<String>,
}

pub struct AttemptView {
    pub program: Seq<char>,
    pub arguments: Seq<Seq<char>>,
}

impl View for EditorAttempt {
    type V = AttemptView;

    open spec fn view(&self) -> AttemptView {
        AttemptView { program: self.program@, arguments: texts(self.arguments@) }
    }
}

pub open spec fn attempt_views(v: Seq<EditorAttempt>) -> Seq<AttemptView> {
    Seq::new(v.len(), |i: int| v[i]@)
}

pub open spec fn opener() -> Seq<char> {
    "/usr/bin/open"@
}

/// The ways to open a path in an editor, in the order in which they are
/// tried: on macOS by the application's name, then by its bundle; then, on
/// every system, by the user's own tool.
pub open spec fn editor_attempts(
    path: Seq<char>,
    app_name: Option<Seq<char>>,
    bundle_id: Option<Seq<char>>,
    command_path: Option<Seq<char>>,
    arguments: Option<Seq<Seq<char>>>,
    is_macos: bool,
) -> Seq<AttemptView> {
    let by_name = if is_macos && app_name is Some {
        seq![AttemptView { program: opener(), arguments: seq!["-a"@, app_name->0, path] }]
    } else {
        seq![]
    };
    let by_bundle = if is_macos && bundle_id is Some {
        seq![AttemptView { program: opener(), arguments: seq!["-b"@, bundle_id->0, path] }]
    } else {
        seq![]
    };
    let by_tool = if command_path is Some {
        seq![
            AttemptView {
                program: command_path->0,
                arguments: (match arguments {
                    Some(a) => a,
                    None => seq![],
                }).push(path),
            },
        ]
    } else {
        seq![]
    };
    by_name + by_bundle + by_tool
}

pub fn open_in_editor(params: EditorOpenParams, is_macos: bool) -> (r: Vec<EditorAttempt>)
    ensures
        attempt_views(r@) == editor_attempts(
            params.path@,
            opt_text(params.app_name),
            opt_text(params.bundle_id),
            opt_text(params.command_path),
            opt_args(params.arguments),
            is_macos,
        ),
{
    let mut out: Vec<EditorAttempt> = Vec::new();
    assert(attempt_views(out@) =~= seq![]);
    if is_macos {
        if let Some(app_name) = &params.app_name {
            let mut arguments: Vec<String> = Vec::new();
            arguments.push(text_of("-a"));
            arguments.push(text_of(app_name.as_str()));
            arguments.push(text_of(params.path.as_str()));
            assert(texts(arguments@) =~= seq!["-a"@, app_name@, params.path@]);
            let ghost before = attempt_views(out@);
            out.push(EditorAttempt { program: text_of("/usr/bin/open"), arguments });
            assert(attempt_views(out@) =~= before.push(
                AttemptView { program: opener(), arguments: seq!["-a"@, app_name@, params.path@] },
            ));
        }
        if let Some(bundle_id) = &params.bundle_id {
            let mut arguments: Vec<String> = Vec::new();
            arguments.push(text_of("-b"));
            arguments.push(text_of(bundle_id.as_str()));
            arguments.push(text_of(params.path.as_str()));
            assert(texts(arguments@) =~= seq!["-b"@, bundle_id@, params.path@]);
            let ghost before = attempt_views(out@);
            out.push(EditorAttempt { program: text_of("/usr/bin/open"), arguments });
            assert(attempt_views(out@) =~= before.push(
                AttemptView { program: opener(), arguments: seq!["-b"@, bundle_id@, params.path@] },
            ));
        }
    }
    let ghost so_far = attempt_views(out@);
    if let Some(command_path) = params.command_path {
        let mut arguments: Vec<String> = match params.arguments {
            Some(a) => a,
            None => Vec::new(),
        };
        let ghost given = texts(arguments@);
        arguments.push(text_of(params.path.as_str()));
        assert(texts(arguments@) =~= given.push(params.path@));
        assert(params.arguments is None ==> given =~= seq![]);
        out.push(EditorAttempt { program: command_path, arguments });
        assert(attempt_views(out@) =~= so_far.push(
            AttemptView { program: command_path@, arguments: given.push(params.path@) },
        ));
    }
    assert(attempt_views(out@) =~= editor_attempts(
        params.path@,
        opt_text(params.app_name),
        opt_text(params.bundle_id),
        opt_text(params.command_path),
        opt_args(params.arguments),
        is_macos,
    ));
    out
}

} // verus!
