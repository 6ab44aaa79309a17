//! Worktrees: where they go, how they are listed, added and removed, and
//! the branch that a new one starts from.

use crate::command::{texts};
use crate::fields::{lines, rows, split_lines, to_vec};
use crate::git_ops::{not_a_repo, GitCommandResult};
use crate::models::{GitWorktreeListItem};
use crate::text::{
    after_prefix, chars_of, has_prefix, is_text, replace_char, str_eq, string_of, strip_prefix,
    strip_trailing, text_le, text_of, text_precedes, trim, trim_slice, with_char_replaced,
    without_trailing,
};
use vstd::prelude::*;

verus! {

pub open spec fn opt_text(o: Option<String>) -> Option<Seq<char>> {
    match o {
        Some(s) => Some(s@),
        None => None,
    }
}

pub open spec fn opt_str(o: Option<&str>) -> Option<Seq<char>> {
    match o {
        Some(s) => Some(s@),
        None => None,
    }
}

pub open spec fn text_result(r: Result<String, String>) -> Result<Seq<char>, Seq<char>> {
    match r {
        Ok(s) => Ok(s@),
        Err(e) => Err(e@),
    }
}

pub open spec fn args_result(r: Result<Vec<String>, String>) -> Result<Seq<Seq<char>>, Seq<char>> {
    match r {
        Ok(args) => Ok(texts(args@)),
        Err(e) => Err(e@),
    }
}

/// A path as paths are compared: trimmed, with `/` for every `\`, and
/// without slashes at the end.
pub open spec fn path_key(path: Seq<char>) -> Seq<char> {
    without_trailing(with_char_replaced(trim(path), '\\', '/'), '/')
}

pub fn normalize_path_for_compare(path: &str) -> (r: String)
    ensures
        r@ == path_key(path@),
{
    let chars = chars_of(path);
    let trimmed = trim_slice(chars.as_slice());
    let slashed = replace_char(trimmed, '\\', '/');
    string_of(strip_trailing(slashed.as_slice(), '/'))
}

/// The key of a path that the file system has resolved.
pub fn canonical_key(canonical: &str) -> (r: String)
    ensures
        r@ == without_trailing(with_char_replaced(canonical@, '\\', '/'), '/'),
{
    let chars = chars_of(canonical);
    let slashed = replace_char(chars.as_slice(), '\\', '/');
    string_of(strip_trailing(slashed.as_slice(), '/'))
}

/// One entry of a worktree listing as it stands there.
#[derive(Debug, Clone, PartialEq, Eq)]
pub struct WorktreeRecord {
    pub path: String,
    pub branch: String,
    pub detached: bool,
}

pub struct RecordView {
    pub path: Seq<char>,
    pub branch: Seq<char>,
    pub detached: bool,
}

impl View for WorktreeRecord {
    type V = RecordView;

    open spec fn view(&self) -> RecordView {
        RecordView { path: self.path@, branch: self.branch@, detached: self.detached }
    }
}

pub open spec fn record_views(v: Seq<WorktreeRecord>) -> Seq<RecordView> {
    Seq::new(v.len(), |i: int| v[i]@)
}

/// What the reading of a listing has gathered.
pub struct Gathered {
    pub records: Seq<RecordView>,
    pub path: Option<Seq<char>>,
    pub branch: Option<Seq<char>>,
    pub detached: bool,
}

/// The entry at hand is complete: it joins the records if it has a path.
pub open spec fn flushed(g: Gathered) -> Gathered {
    match g.path {
        None => Gathered { records: g.records, path: None, branch: None, detached: false },
        Some(path) => Gathered {
            records: g.records.push(
                RecordView {
                    path,
                    branch: match g.branch {
                        Some(b) => b,
                        None => seq![],
                    },
                    detached: g.detached,
                },
            ),
            path: None,
            branch: None,
            detached: false,
        },
    }
}

/// The name of a branch from its reference.
pub open spec fn branch_of_ref(reference: Seq<char>) -> Seq<char> {
    let r = trim(reference);
    if has_prefix(r, "refs/heads/"@) {
        after_prefix(r, "refs/heads/"@)
    } else {
        r
    }
}

/// What has been gathered after one more line: a blank line ends an entry,
/// a `worktree` line ends one and begins the next.
pub open spec fn gathered_line(g: Gathered, raw: Seq<char>) -> Gathered {
    let line = trim(raw);
    if line.len() == 0 {
        flushed(g)
    } else if has_prefix(line, "worktree "@) {
        Gathered { path: Some(trim(after_prefix(line, "worktree "@))), ..flushed(g) }
    } else if has_prefix(line, "branch "@) {
        Gathered { branch: Some(branch_of_ref(after_prefix(line, "branch "@))), ..g }
    } else if line == "detached"@ {
        Gathered { detached: true, ..g }
    } else {
        g
    }
}

pub open spec fn gathered_rows(rows: Seq<Seq<char>>) -> Gathered
    decreases rows.len(),
{
    if rows.len() == 0 {
        Gathered { records: seq![], path: None, branch: None, detached: false }
    } else {
        gathered_line(gathered_rows(rows.drop_last()), rows.last())
    }
}

/// The entries of the output of `git worktree list --porcelain`.
pub open spec fn worktree_records(output: Seq<char>) -> Seq<RecordView> {
    flushed(gathered_rows(lines(output))).records
}

struct Gathering {
    records: Vec<WorktreeRecord>,
    path: Option<String>,
    branch: Option<String>,
    detached: bool,
}

impl View for Gathering {
    type V = Gathered;

    closed spec fn view(&self) -> Gathered {
        Gathered {
            records: record_views(self.records@),
            path: opt_text(self.path),
            branch: opt_text(self.branch),
            detached: self.detached,
        }
    }
}

fn flush(g: &mut Gathering)
    ensures
        final(g)@ == flushed(old(g)@),
{
    let path = g.path.take();
    let branch = g.branch.take();
    let detached = g.detached;
    g.detached = false;
    if let Some(path) = path {
        let ghost before = record_views(g.records@);
        let branch = match branch {
            Some(b) => b,
            None => String::new(),
        };
        g.records.push(WorktreeRecord { path, branch, detached });
        assert(record_views(g.records@) =~= before.push(
            RecordView { path: path@, branch: branch@, detached },
        ));
    }
}

fn gather_line(g: &mut Gathering, raw: &[char])
    ensures
        final(g)@ == gathered_line(old(g)@, raw@),
{
    let line = trim_slice(raw);
    if line.len() == 0 {
        flush(g);
        return ;
    }
    if let Some(rest) = strip_prefix(line, "worktree ") {
        flush(g);
        g.path = Some(string_of(trim_slice(rest)));
        return ;
    }
    if let Some(rest) = strip_prefix(line, "branch ") {
        let reference = trim_slice(rest);
        let name = match strip_prefix(reference, "refs/heads/") {
            Some(name) => name,
            None => reference,
        };
        g.branch = Some(string_of(name));
        return ;
    }
    if is_text(line, "detached") {
        g.detached = true;
    }
}

/// Reads the entries of the output of `git worktree list --porcelain`.
pub fn parse_worktree_records(output: &str) -> (r: Vec<WorktreeRecord>)
    ensures
        record_views(r@) == worktree_records(output@),
{
    let chars = chars_of(output);
    let all = split_lines(chars.as_slice());
    let mut g = Gathering { records: Vec::new(), path: None, branch: None, detached: false };
    assert(g@.records =~= seq![]);
    let mut i: usize = 0;
    while i < all.len()
        invariant
            i <= all.len(),
            g@ == gathered_rows(rows(all@).subrange(0, i as int)),
        decreases all.len() - i,
    {
        let ghost after = rows(all@).subrange(0, i + 1);
        assert(after.drop_last() =~= rows(all@).subrange(0, i as int));
        assert(after.last() == all@[i as int]@);
        gather_line(&mut g, all[i].as_slice());
        i += 1;
    }
    assert(rows(all@).subrange(0, all@.len() as int) =~= rows(all@));
    flush(&mut g);
    g.records
}

pub struct ItemView {
    pub path: Seq<char>,
    pub branch: Seq<char>,
}

impl View for GitWorktreeListItem {
    type V = ItemView;

    open spec fn view(&self) -> ItemView {
        ItemView { path: self.path@, branch: self.branch@ }
    }
}

pub open spec fn item_views(v: Seq<GitWorktreeListItem>) -> Seq<ItemView> {
    Seq::new(v.len(), |i: int| v[i]@)
}

/// Where `x` goes among `sorted`: behind every item whose path does not
/// come after its own.
pub open spec fn place_of(sorted: Seq<ItemView>, x: ItemView, i: int) -> int
    decreases sorted.len() - i,
{
    if 0 <= i < sorted.len() && text_le(sorted[i].path, x.path) {
        place_of(sorted, x, i + 1)
    } else {
        i
    }
}

/// `items` in the order of their paths; items with one path stay in the
/// order in which they came.
pub open spec fn by_path(items: Seq<ItemView>) -> Seq<ItemView>
    decreases items.len(),
{
    if items.len() == 0 {
        items
    } else {
        let sorted = by_path(items.drop_last());
        sorted.insert(place_of(sorted, items.last(), 0), items.last())
    }
}

fn path_not_after(item: &GitWorktreeListItem, key: &[char]) -> (r: bool)
    ensures
        r == text_le(item.path@, key@),
{
    let path = chars_of(item.path.as_str());
    text_precedes(path.as_slice(), key)
}

fn insert_by_path(sorted: &mut Vec<GitWorktreeListItem>, item: GitWorktreeListItem)
    ensures
        item_views(final(sorted)@) == item_views(old(sorted)@).insert(
            place_of(item_views(old(sorted)@), item@, 0),
            item@,
        ),
{
    let key = chars_of(item.path.as_str());
    let mut i: usize = 0;
    while i < sorted.len() && path_not_after(&sorted[i], key.as_slice())
        invariant
            i <= sorted.len(),
            *sorted == *old(sorted),
            key@ == item.path@,
            place_of(item_views(sorted@), item@, 0) == place_of(
                item_views(sorted@),
                item@,
                i as int,
            ),
        decreases sorted.len() - i,
    {
        assert(item_views(sorted@)[i as int].path == sorted@[i as int].path@);
        i += 1;
    }
    assert(i < sorted.len() ==> item_views(sorted@)[i as int].path == sorted@[i as int].path@);
    let ghost before = item_views(sorted@);
    sorted.insert(i, item);
    assert(item_views(sorted@) =~= before.insert(i as int, item@));
}

/// The worktrees among `records` that a listing shows: those with a branch
/// checked out, other than the repository's own directory. `keys` and
/// `base_key` are the keys by which paths are compared.
pub open spec fn shown(records: Seq<RecordView>, keys: Seq<Seq<char>>, base_key: Seq<char>) -> Seq<
    ItemView,
>
    decreases records.len(),
{
    if records.len() == 0 {
        seq![]
    } else {
        let r = records.last();
        let rest = shown(records.drop_last(), keys, base_key);
        let n = records.len() - 1;
        if n < keys.len() && keys[n] != base_key && !r.detached && r.branch.len() > 0 {
            rest.push(ItemView { path: r.path, branch: r.branch })
        } else {
            rest
        }
    }
}

/// Picks and orders the worktrees that a listing shows. `keys[i]` is the
/// key of `records[i]`'s path; a record without a key is left out.
pub fn select_worktrees(records: &Vec<WorktreeRecord>, keys: &Vec<String>, base_key: &str) -> (r:
    Vec<GitWorktreeListItem>)
    ensures
        item_views(r@) == by_path(shown(record_views(records@), texts(keys@), base_key@)),
{
    let mut kept: Vec<GitWorktreeListItem> = Vec::new();
    let mut i: usize = 0;
    assert(item_views(kept@) =~= seq![]);
    while i < records.len()
        invariant
            i <= records.len(),
            item_views(kept@) == shown(
                record_views(records@).subrange(0, i as int),
                texts(keys@),
                base_key@,
            ),
        decreases records.len() - i,
    {
        let ghost after = record_views(records@).subrange(0, i + 1);
        assert(after.drop_last() =~= record_views(records@).subrange(0, i as int));
        assert(after.last() == records@[i as int]@);
        let record = &records[i];
        if i < keys.len() {
            assert(texts(keys@)[i as int] == keys@[i as int]@);
            if !str_eq(keys[i].as_str(), base_key) && !record.detached
                && !record.branch.as_str().is_empty() {
                let ghost before = item_views(kept@);
                kept.push(
                    GitWorktreeListItem {
                        path: text_of(record.path.as_str()),
                        branch: text_of(record.branch.as_str()),
                    },
                );
                assert(item_views(kept@) =~= before.push(
                    ItemView { path: record.path@, branch: record.branch@ },
                ));
            }
        }
        i += 1;
    }
    assert(record_views(records@).subrange(0, records@.len() as int) =~= record_views(records@));
    sort_by_path(kept)
}

/// Orders worktrees by path; worktrees with one path keep their order.
pub fn sort_by_path(items: Vec<GitWorktreeListItem>) -> (r: Vec<GitWorktreeListItem>)
    ensures
        item_views(r@) == by_path(item_views(items@)),
{
    let mut sorted: Vec<GitWorktreeListItem> = Vec::new();
    let ghost all = item_views(items@);
    let mut k: usize = 0;
    assert(item_views(sorted@) =~= by_path(all.subrange(0, 0)));
    while k < items.len()
        invariant
            k <= items.len(),
            all == item_views(items@),
            item_views(sorted@) == by_path(all.subrange(0, k as int)),
        decreases items.len() - k,
    {
        let ghost after = all.subrange(0, k + 1);
        assert(after.drop_last() =~= all.subrange(0, k as int));
        assert(after.last() == items@[k as int]@);
        let item = GitWorktreeListItem {
            path: text_of(items[k].path.as_str()),
            branch: text_of(items[k].branch.as_str()),
        };
        insert_by_path(&mut sorted, item);
        k += 1;
    }
    assert(all.subrange(0, all.len() as int) =~= all);
    sorted
}

pub open spec fn path_keys(records: Seq<RecordView>) -> Seq<Seq<char>> {
    Seq::new(records.len(), |i: int| path_key(records[i].path))
}

/// The worktrees of a repository other than its own directory, from the
/// output of `git worktree list --porcelain`, in the order of their paths.
/// Paths are compared as texts.
pub fn parse_worktree_list_output(base_path: &str, output: &str) -> (r: Vec<GitWorktreeListItem>)
    ensures
        item_views(r@) == by_path(
            shown(
                worktree_records(output@),
                path_keys(worktree_records(output@)),
                path_key(base_path@),
            ),
        ),
{
    let records = parse_worktree_records(output);
    let base_key = normalize_path_for_compare(base_path);
    let mut keys: Vec<String> = Vec::new();
    let mut i: usize = 0;
    while i < records.len()
        invariant
            i <= records.len(),
            texts(keys@) == path_keys(record_views(records@)).subrange(0, i as int),
        decreases records.len() - i,
    {
        let ghost before = texts(keys@);
        keys.push(normalize_path_for_compare(records[i].path.as_str()));
        assert(texts(keys@) =~= before.push(path_key(records@[i as int].path@)));
        i += 1;
        assert(texts(keys@) =~= path_keys(record_views(records@)).subrange(0, i as int));
    }
    assert(texts(keys@) =~= path_keys(record_views(records@)));
    select_worktrees(&records, &keys, base_key.as_str())
}

pub open spec fn items_result(r: Result<Vec<GitWorktreeListItem>, String>) -> Result<
    Seq<ItemView>,
    Seq<char>,
> {
    match r {
        Ok(items) => Ok(item_views(items@)),
        Err(e) => Err(e@),
    }
}

/// The worktrees of a repository. `result` is the outcome of `git worktree
/// list --porcelain`.
pub fn list_worktrees(is_repo: bool, base_path: &str, result: GitCommandResult) -> (r: Result<
    Vec<GitWorktreeListItem>,
    String,
>)
    ensures
        items_result(r) == (if !is_repo {
            Err::<Seq<ItemView>, Seq<char>>(not_a_repo())
        } else if !result.success {
            Err(result.output@)
        } else {
            Ok(
                by_path(
                    shown(
                        worktree_records(result.output@),
                        path_keys(worktree_records(result.output@)),
                        path_key(base_path@),
                    ),
                ),
            )
        }),
{
    if !is_repo {
        return Err(text_of("不是 Git 仓库"));
    }
    if !result.success {
        return Err(result.output);
    }
    Ok(parse_worktree_list_output(base_path, result.output.as_str()))
}

} // verus!
