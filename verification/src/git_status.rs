//! Reading `git branch --list` and `git status --porcelain=v2 -z -b`.

use crate::fields::{decimal, fields, lines, parse_decimal, rows, split_lines, split_on, to_vec};
use crate::git_ops::{map_git_status_char, not_a_repo, GitCommandResult};
use crate::models::{BranchListItem, GitChangedFile, GitFileStatus, GitRepoStatus};
use crate::text::{
    after_prefix, chars_of, has_prefix, next_token, nth_token_span, push_chars, same_text,
    string_of, strip_leading, strip_prefix, text_of, token_span, trim, trim_slice, without_char,
    without_leading, remove_char,
};
use vstd::prelude::*;

verus! {

pub open spec fn opt_text(o: Option<String>) -> Option<Seq<char>> {
    match o {
        Some(s) => Some(s@),
        None => None,
    }
}

pub open spec fn opt_str(o: Option<&str>) -> Option<Seq<char>> {
    match o {
        Some(s) => Some(s@),
        None => None,
    }
}

/// The branch that a line of a branch listing names: the line without the
/// marker of the current branch, trimmed.
pub open spec fn branch_name_of(line: Seq<char>) -> Seq<char> {
    trim(without_char(line, '*'))
}

/// The branches that a listing names, in its order; blank lines name none.
pub open spec fn branch_names(rows: Seq<Seq<char>>) -> Seq<Seq<char>>
    decreases rows.len(),
{
    if rows.len() == 0 {
        seq![]
    } else if branch_name_of(rows.last()).len() == 0 {
        branch_names(rows.drop_last())
    } else {
        branch_names(rows.drop_last()).push(branch_name_of(rows.last()))
    }
}

/// What follows the last `/` of a reference.
pub open spec fn last_segment(reference: Seq<char>) -> Seq<char> {
    trim(fields(reference, '/').last())
}

/// The default branch among `names`: the one that the remote's `HEAD`
/// points to, where that is known and listed; else `main`; else `master`.
pub open spec fn default_branch(names: Seq<Seq<char>>, origin_head: Option<Seq<char>>) -> Option<
    Seq<char>,
> {
    if origin_head is Some && names.contains(last_segment(origin_head->0)) {
        Some(last_segment(origin_head->0))
    } else if names.contains("main"@) {
        Some("main"@)
    } else if names.contains("master"@) {
        Some("master"@)
    } else {
        None
    }
}

fn holds_name(names: &Vec<Vec<char>>, name: &[char]) -> (r: bool)
    ensures
        r == rows(names@).contains(name@),
{
    let mut i: usize = 0;
    while i < names.len()
        invariant
            i <= names.len(),
            forall|k: int| 0 <= k < i ==> rows(names@)[k] != name@,
        decreases names.len() - i,
    {
        if same_text(names[i].as_slice(), name) {
            assert(rows(names@)[i as int] == name@);
            return true;
        }
        i += 1;
    }
    false
}

/// The default branch among `branches`. `origin_head` is what
/// `git symbolic-ref refs/remotes/origin/HEAD` printed, if it succeeded.
pub fn resolve_default_branch(branches: &Vec<Vec<char>>, origin_head: Option<&str>) -> (r: Option<
    Vec<char>,
>)
    ensures
        match r {
            Some(name) => default_branch(rows(branches@), opt_str(origin_head)) == Some(name@),
            None => default_branch(rows(branches@), opt_str(origin_head)) is None,
        },
{
    if let Some(head) = origin_head {
        let chars = chars_of(head);
        let parts = split_on(chars.as_slice(), '/');
        assert(rows(parts@).last() == parts@[parts.len() - 1]@);
        let name = trim_slice(parts[parts.len() - 1].as_slice());
        if holds_name(branches, name) {
            return Some(to_vec(name));
        }
    }
    let main = chars_of("main");
    if holds_name(branches, main.as_slice()) {
        return Some(main);
    }
    let master = chars_of("master");
    if holds_name(branches, master.as_slice()) {
        return Some(master);
    }
    None
}

pub open spec fn branch_views(v: Seq<BranchListItem>) -> Seq<(Seq<char>, bool)> {
    Seq::new(v.len(), |i: int| (v[i].name@, v[i].is_main))
}

/// The branches of a listing, each marked where it is the default one.
pub open spec fn listed_branches(listing: Seq<char>, origin_head: Option<Seq<char>>) -> Seq<
    (Seq<char>, bool),
> {
    let names = branch_names(lines(listing));
    let main = default_branch(names, origin_head);
    Seq::new(names.len(), |i: int| (names[i], main == Some(names[i])))
}

/// The local branches of a repository. `listing` is what `git branch
/// --list` printed, if it succeeded; outside a repository, and where the
/// listing failed, there are none.
pub fn list_branches(is_repo: bool, listing: Option<&str>, origin_head: Option<&str>) -> (r: Vec<
    BranchListItem,
>)
    ensures
        branch_views(r@) == (if is_repo && listing is Some {
            listed_branches(listing->0@, opt_str(origin_head))
        } else {
            seq![]
        }),
{
    let mut out: Vec<BranchListItem> = Vec::new();
    if !is_repo {
        assert(branch_views(out@) =~= seq![]);
        return out;
    }
    let listing = match listing {
        Some(l) => l,
        None => {
            assert(branch_views(out@) =~= seq![]);
            return out;
        },
    };
    let chars = chars_of(listing);
    let all = split_lines(chars.as_slice());
    let mut names: Vec<Vec<char>> = Vec::new();
    let mut i: usize = 0;
    assert(rows(names@) =~= seq![]);
    while i < all.len()
        invariant
            i <= all.len(),
            rows(names@) == branch_names(rows(all@).subrange(0, i as int)),
        decreases all.len() - i,
    {
        let ghost before = rows(all@).subrange(0, i as int);
        let ghost after = rows(all@).subrange(0, i + 1);
        assert(after.drop_last() =~= before);
        assert(after.last() == all@[i as int]@);
        let ghost old_names = rows(names@);
        let bare = remove_char(all[i].as_slice(), '*');
        let name = trim_slice(bare.as_slice());
        if name.len() > 0 {
            names.push(to_vec(name));
            assert(rows(names@) =~= old_names.push(name@));
        }
        i += 1;
    }
    assert(rows(all@).subrange(0, all@.len() as int) =~= rows(all@));
    let main = resolve_default_branch(&names, origin_head);
    let ghost wanted = listed_branches(listing@, opt_str(origin_head));
    let ghost main_view = default_branch(rows(names@), opt_str(origin_head));
    let mut k: usize = 0;
    assert(branch_views(out@) =~= wanted.subrange(0, 0));
    while k < names.len()
        invariant
            k <= names.len(),
            wanted == listed_branches(listing@, opt_str(origin_head)),
            rows(names@) == branch_names(lines(listing@)),
            main_view == default_branch(rows(names@), opt_str(origin_head)),
            match main {
                Some(name) => main_view == Some(name@),
                None => main_view is None,
            },
            branch_views(out@) == wanted.subrange(0, k as int),
        decreases names.len() - k,
    {
        let is_main = match &main {
            Some(m) => same_text(m.as_slice(), names[k].as_slice()),
            None => false,
        };
        let ghost old_views = branch_views(out@);
        assert(rows(names@)[k as int] == names@[k as int]@);
        out.push(BranchListItem { name: string_of(names[k].as_slice()), is_main });
        assert(branch_views(out@) =~= old_views.push((names@[k as int]@, is_main)));
        k += 1;
        assert(branch_views(out@) =~= wanted.subrange(0, k as int));
    }
    assert(wanted.subrange(0, wanted.len() as int) =~= wanted);
    out
}

pub struct ChangeView {
    pub path: Seq<char>,
    pub old_path: Option<Seq<char>>,
    pub status: GitFileStatus,
}

impl View for GitChangedFile {
    type V = ChangeView;

    open spec fn view(&self) -> ChangeView {
        ChangeView { path: self.path@, old_path: opt_text(self.old_path), status: self.status }
    }
}

pub open spec fn change_views(v: Seq<GitChangedFile>) -> Seq<ChangeView> {
    Seq::new(v.len(), |i: int| v[i]@)
}

pub struct StatusView {
    pub branch: Seq<char>,
    pub upstream: Option<Seq<char>>,
    pub ahead: i32,
    pub behind: i32,
    pub staged: Seq<ChangeView>,
    pub unstaged: Seq<ChangeView>,
    pub untracked: Seq<ChangeView>,
}

impl View for GitRepoStatus {
    type V = StatusView;

    open spec fn view(&self) -> StatusView {
        StatusView {
            branch: self.branch@,
            upstream: opt_text(self.upstream),
            ahead: self.ahead,
            behind: self.behind,
            staged: change_views(self.staged@),
            unstaged: change_views(self.unstaged@),
            untracked: change_views(self.untracked@),
        }
    }
}

/// The words of `s` from position `i` on, with one space between two.
pub open spec fn words_joined(s: Seq<char>, i: int) -> Seq<char>
    decreases s.len() - i,
{
    match token_span(s, i) {
        None => seq![],
        Some((a, b)) => if i <= a < b <= s.len() {
            let rest = words_joined(s, b);
            if rest.len() == 0 {
                s.subrange(a, b)
            } else {
                s.subrange(a, b) + seq![' '] + rest
            }
        } else {
            seq![]
        },
    }
}

pub open spec fn status_of_letter(c: char) -> GitFileStatus {
    if c == 'A' {
        GitFileStatus::Added
    } else if c == 'D' {
        GitFileStatus::Deleted
    } else if c == 'R' {
        GitFileStatus::Renamed
    } else if c == 'C' {
        GitFileStatus::Copied
    } else if c == '?' {
        GitFileStatus::Untracked
    } else {
        GitFileStatus::Modified
    }
}

pub open spec fn is_change(c: char) -> bool {
    c != '.' && c != ' '
}

/// The number after the sign of a count of commits, 0 where it cannot be
/// read.
pub open spec fn count_after(token: Option<Seq<char>>, sign: char) -> i32 {
    let text = match token {
        Some(t) => without_leading(t, sign),
        None => seq![],
    };
    match decimal(text, -0x8000_0000, 0x7FFF_FFFF) {
        Some(v) => v as i32,
        None => 0,
    }
}

/// The status after a header record; `rest` is the record without its
/// leading `# `.
pub open spec fn with_header(acc: StatusView, rest: Seq<char>) -> StatusView {
    if has_prefix(rest, "branch.head "@) {
        StatusView { branch: trim(after_prefix(rest, "branch.head "@)), ..acc }
    } else if has_prefix(rest, "branch.upstream "@) {
        let value = trim(after_prefix(rest, "branch.upstream "@));
        if value.len() > 0 {
            StatusView { upstream: Some(value), ..acc }
        } else {
            acc
        }
    } else if has_prefix(rest, "branch.ab "@) {
        let counts = after_prefix(rest, "branch.ab "@);
        StatusView {
            ahead: count_after(word(counts, 0), '+'),
            behind: count_after(word(counts, 1), '-'),
            ..acc
        }
    } else {
        acc
    }
}

/// The `n`-th word of `s`.
pub open spec fn word(s: Seq<char>, n: nat) -> Option<Seq<char>> {
    match nth_token_span(s, 0, n) {
        Some((a, b)) => Some(s.subrange(a, b)),
        None => None,
    }
}

/// The status after a record of a changed entry. The record's second word
/// holds a letter for the index and one for the working tree; its path
/// begins with word number `path_at`. A record that is too short changes
/// nothing.
pub open spec fn with_change(
    acc: StatusView,
    record: Seq<char>,
    path_at: nat,
    old_path: Option<Seq<char>>,
) -> StatusView {
    match (word(record, 1), nth_token_span(record, 0, path_at)) {
        (Some(xy), Some((a, b))) => {
            let x = if xy.len() > 0 {
                xy[0]
            } else {
                '.'
            };
            let y = if xy.len() > 1 {
                xy[1]
            } else {
                '.'
            };
            let path = words_joined(record, a);
            let staged = if is_change(x) {
                acc.staged.push(ChangeView { path, old_path, status: status_of_letter(x) })
            } else {
                acc.staged
            };
            let unstaged = if is_change(y) {
                acc.unstaged.push(ChangeView { path, old_path, status: status_of_letter(y) })
            } else {
                acc.unstaged
            };
            if path.len() == 0 {
                acc
            } else {
                StatusView { staged, unstaged, ..acc }
            }
        },
        _ => acc,
    }
}

/// The status after a record of an untracked entry.
pub open spec fn with_untracked(acc: StatusView, record: Seq<char>) -> StatusView {
    if has_prefix(record, "? "@) && trim(after_prefix(record, "? "@)).len() > 0 {
        StatusView {
            untracked: acc.untracked.push(
                ChangeView {
                    path: trim(after_prefix(record, "? "@)),
                    old_path: None,
                    status: GitFileStatus::Untracked,
                },
            ),
            ..acc
        }
    } else {
        acc
    }
}

/// The status after the records from number `i` on. A record of a renamed
/// or copied entry is followed by a record that holds the old path.
pub open spec fn status_from(parts: Seq<Seq<char>>, i: int, acc: StatusView) -> StatusView
    decreases parts.len() + 1 - i,
{
    if i < 0 || i >= parts.len() {
        acc
    } else {
        let record = parts[i];
        if record.len() == 0 {
            status_from(parts, i + 1, acc)
        } else if has_prefix(record, "# "@) {
            status_from(parts, i + 1, with_header(acc, after_prefix(record, "# "@)))
        } else if record[0] == '1' {
            status_from(parts, i + 1, with_change(acc, record, 8, None))
        } else if record[0] == '2' {
            let old_path = if i + 1 < parts.len() {
                Some(parts[i + 1])
            } else {
                None
            };
            status_from(parts, i + 2, with_change(acc, record, 9, old_path))
        } else if record[0] == '?' {
            status_from(parts, i + 1, with_untracked(acc, record))
        } else {
            status_from(parts, i + 1, acc)
        }
    }
}

pub open spec fn blank_status() -> StatusView {
    StatusView {
        branch: seq![],
        upstream: None,
        ahead: 0,
        behind: 0,
        staged: seq![],
        unstaged: seq![],
        untracked: seq![],
    }
}

/// The status that the output of `git status --porcelain=v2 -z -b` stands
/// for. Without a branch header the branch is `HEAD`.
pub open spec fn porcelain_status(output: Seq<char>) -> StatusView {
    let read = status_from(fields(output, '\0'), 0, blank_status());
    if read.branch.len() == 0 {
        StatusView { branch: "HEAD"@, ..read }
    } else {
        read
    }
}

fn take_word_span(s: &[char], from: usize) -> (r: (Option<(usize, usize)>, usize))
    requires
        from <= s.len(),
    ensures
        r.1 <= s.len(),
        match token_span(s@, from as int) {
            Some((a, b)) => r.0 == Some((a as usize, b as usize)) && r.1 == b && from <= a < b
                <= s.len(),
            None => r.0 is None && r.1 == from,
        },
{
    match next_token(s, from) {
        Some((a, b)) => (Some((a, b)), b),
        None => (None, from),
    }
}

/// Where word number `n` of `s` lies.
fn word_span(s: &[char], n: usize) -> (r: Option<(usize, usize)>)
    ensures
        match r {
            Some((a, b)) => nth_token_span(s@, 0, n as nat) == Some((a as int, b as int)) && a
                < b <= s.len(),
            None => nth_token_span(s@, 0, n as nat) is None,
        },
{
    let mut pos: usize = 0;
    let mut left = n;
    loop
        invariant
            pos <= s.len(),
            left <= n,
            nth_token_span(s@, 0, n as nat) == nth_token_span(s@, pos as int, left as nat),
        decreases left,
    {
        match next_token(s, pos) {
            None => {
                return None;
            },
            Some((a, b)) => {
                if left == 0 {
                    return Some((a, b));
                }
                pos = b;
                left -= 1;
            },
        }
    }
}

fn join_words(s: &[char], from: usize) -> (out: Vec<char>)
    requires
        from <= s.len(),
    ensures
        out@ == words_joined(s@, from as int),
    decreases s.len() - from,
{
    match next_token(s, from) {
        None => Vec::new(),
        Some((a, b)) => {
            let rest = join_words(s, b);
            let mut out = to_vec(&s[a..b]);
            if rest.len() > 0 {
                out.push(' ');
                push_chars(&mut out, rest.as_slice());
            }
            assert(out@ =~= words_joined(s@, from as int));
            out
        },
    }
}

fn parse_count(token: Option<(usize, usize)>, s: &[char], sign: char) -> (r: i32)
    requires
        match token {
            Some((a, b)) => a <= b <= s.len(),
            None => true,
        },
    ensures
        r == count_after(
            match token {
                Some((a, b)) => Some(s@.subrange(a as int, b as int)),
                None => None,
            },
            sign,
        ),
{
    match token {
        Some((a, b)) => {
            let bare = strip_leading(&s[a..b], sign);
            match parse_decimal(bare, -0x8000_0000, 0x7FFF_FFFF) {
                Some(v) => v as i32,
                None => 0,
            }
        },
        None => {
            let empty: Vec<char> = Vec::new();
            match parse_decimal(empty.as_slice(), -0x8000_0000, 0x7FFF_FFFF) {
                Some(v) => v as i32,
                None => 0,
            }
        },
    }
}

fn apply_header(status: &mut GitRepoStatus, rest: &[char])
    ensures
        final(status)@ == with_header(old(status)@, rest@),
{
    if let Some(value) = strip_prefix(rest, "branch.head ") {
        status.branch = string_of(trim_slice(value));
    } else if let Some(value) = strip_prefix(rest, "branch.upstream ") {
        let value = trim_slice(value);
        if value.len() > 0 {
            status.upstream = Some(string_of(value));
        }
    } else if let Some(counts) = strip_prefix(rest, "branch.ab ") {
        proof {
            reveal_with_fuel(nth_token_span, 3);
        }
        let (first, p) = take_word_span(counts, 0);
        let (second, _q) = take_word_span(counts, p);
        let second = if first.is_none() {
            None
        } else {
            second
        };
        status.ahead = parse_count(first, counts, '+');
        status.behind = parse_count(second, counts, '-');
    }
}

/// Reads one record of a changed entry into the lists of staged and
/// unstaged changes.
pub fn parse_change_record(
    record: &[char],
    path_token_start_index: usize,
    old_path: Option<String>,
    status: &mut GitRepoStatus,
)
    ensures
        final(status)@ == with_change(
            old(status)@,
            record@,
            path_token_start_index as nat,
            opt_text(old_path),
        ),
{
    let xy = match word_span(record, 1) {
        Some(span) => span,
        None => {
            return ;
        },
    };
    let path_span = match word_span(record, path_token_start_index) {
        Some(span) => span,
        None => {
            return ;
        },
    };
    let x = record[xy.0];
    let y = if xy.1 - xy.0 > 1 {
        record[xy.0 + 1]
    } else {
        '.'
    };
    let path = join_words(record, path_span.0);
    if path.len() == 0 {
        return ;
    }
    let ghost path_view = path@;
    let ghost old_view = opt_text(old_path);
    if x != '.' && x != ' ' {
        let ghost before = change_views(status.staged@);
        let copy = match &old_path {
            Some(p) => Some(text_of(p.as_str())),
            None => None,
        };
        status.staged.push(
            GitChangedFile {
                path: string_of(path.as_slice()),
                old_path: copy,
                status: map_git_status_char(x),
            },
        );
        assert(change_views(status.staged@) =~= before.push(
            ChangeView { path: path_view, old_path: old_view, status: status_of_letter(x) },
        ));
    }
    if y != '.' && y != ' ' {
        let ghost before = change_views(status.unstaged@);
        status.unstaged.push(
            GitChangedFile {
                path: string_of(path.as_slice()),
                old_path,
                status: map_git_status_char(y),
            },
        );
        assert(change_views(status.unstaged@) =~= before.push(
            ChangeView { path: path_view, old_path: old_view, status: status_of_letter(y) },
        ));
    }
}

fn apply_untracked(status: &mut GitRepoStatus, record: &[char])
    ensures
        final(status)@ == with_untracked(old(status)@, record@),
{
    if let Some(path) = strip_prefix(record, "? ") {
        let path = trim_slice(path);
        if path.len() > 0 {
            let ghost before = change_views(status.untracked@);
            status.untracked.push(
                GitChangedFile {
                    path: string_of(path),
                    old_path: None,
                    status: GitFileStatus::Untracked,
                },
            );
            assert(change_views(status.untracked@) =~= before.push(
                ChangeView { path: path@, old_path: None, status: GitFileStatus::Untracked },
            ));
        }
    }
}

/// Reads the output of `git status --porcelain=v2 -z -b`.
pub fn parse_porcelain_v2_status(output: &str) -> (r: GitRepoStatus)
    ensures
        r@ == porcelain_status(output@),
{
    let chars = chars_of(output);
    let parts = split_on(chars.as_slice(), '\0');
    let mut status = GitRepoStatus {
        branch: String::new(),
        upstream: None,
        ahead: 0,
        behind: 0,
        staged: Vec::new(),
        unstaged: Vec::new(),
        untracked: Vec::new(),
    };
    assert(status@ =~= blank_status()) by {
        assert(status@.staged =~= seq![]);
        assert(status@.unstaged =~= seq![]);
        assert(status@.untracked =~= seq![]);
    }
    let ghost all = rows(parts@);
    let mut index: usize = 0;
    while index < parts.len()
        invariant
            index <= parts.len(),
            all == rows(parts@),
            status_from(all, 0, blank_status()) == status_from(all, index as int, status@),
        decreases parts.len() - index,
    {
        let record = parts[index].as_slice();
        assert(all[index as int] == record@);
        if record.len() == 0 {
            index += 1;
            continue ;
        }
        if let Some(rest) = strip_prefix(record, "# ") {
            apply_header(&mut status, rest);
            index += 1;
            continue ;
        }
        let record_type = record[0];
        if record_type == '1' {
            parse_change_record(record, 8, None, &mut status);
        } else if record_type == '2' {
            let old_path = if parts.len() - index > 1 {
                assert(all[index + 1] == parts@[index + 1]@);
                Some(string_of(parts[index + 1].as_slice()))
            } else {
                None
            };
            parse_change_record(record, 9, old_path, &mut status);
            if parts.len() - index > 1 {
                index += 1;
            } else {
                assert(status_from(all, index + 2, status@) == status@);
                assert(status_from(all, index + 1, status@) == status@);
            }
        } else if record_type == '?' {
            apply_untracked(&mut status, record);
        }
        index += 1;
    }
    if status.branch.as_str().is_empty() {
        status.branch = text_of("HEAD");
    }
    status
}

pub open spec fn status_result(r: Result<GitRepoStatus, String>) -> Result<StatusView, Seq<char>> {
    match r {
        Ok(s) => Ok(s@),
        Err(e) => Err(e@),
    }
}

/// The status of a repository. `result` is the outcome of `git status
/// --porcelain=v2 -z -b`.
pub fn get_repo_status(is_repo: bool, result: GitCommandResult) -> (r: Result<GitRepoStatus, String>)
    ensures
        status_result(r) == (if !is_repo {
            Err::<StatusView, Seq<char>>(not_a_repo())
        } else if !result.success {
            Err(result.output@)
        } else {
            Ok(porcelain_status(result.output@))
        }),
{
    if !is_repo {
        return Err(text_of("不是 Git 仓库"));
    }
    if !result.success {
        return Err(result.output);
    }
    Ok(parse_porcelain_v2_status(result.output.as_str()))
}

} // verus!
