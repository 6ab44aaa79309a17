//! Project files: which may be shown and written, how a directory is
//! listed, which directories hold projects, and the notes of a project.

use crate::command::{lowercase_of, unicode_lowercase};
use crate::models::{
    FsEntry, FsEntryKind, FsFailureReason, FsListResponse, FsReadResponse, FsWriteResponse,
    MarkdownFileEntry,
};
use crate::reassembly::string_from_utf8;
use crate::sorting::{order_by_text, places, sort_and_dedup, sorted_unique, text_order};
use crate::text::{
    ascii_lowercase, chars_of, has_prefix, is_text, replace_char, string_of, text_of,
    to_ascii_lowercase, trim, trim_slice, with_char_replaced,
};
use vstd::prelude::*;
use vstd::utf8::{decode_utf8, encode_utf8, valid_utf8};

verus! {

/// The most that is shown, and written, of one file, in bytes.
pub const MAX_FILE_PREVIEW_BYTES: u64 = 524_288;

pub open spec fn opt_text(o: Option<String>) -> Option<Seq<char>> {
    match o {
        Some(s) => Some(s@),
        None => None,
    }
}

pub open spec fn texts(items: Seq<String>) -> Seq<Seq<char>> {
    Seq::new(items.len(), |i: int| items[i]@)
}

/// Whether a zero byte stands among the bytes.
pub open spec fn has_zero(bytes: Seq<u8>) -> bool {
    exists|i: int| 0 <= i < bytes.len() && bytes[i] == 0
}

pub fn contains_zero(bytes: &[u8]) -> (r: bool)
    ensures
        r == has_zero(bytes@),
{
    let mut i: usize = 0;
    while i < bytes.len()
        invariant
            i <= bytes.len(),
            forall|k: int| 0 <= k < i ==> bytes@[k] != 0,
        decreases bytes.len() - i,
    {
        if bytes[i] == 0 {
            return true;
        }
        i += 1;
    }
    false
}

/// Why a file cannot be shown, if it cannot: it is too large, or it is not
/// text.
pub open spec fn read_problem(size: u64, bytes: Seq<u8>) -> Option<FsFailureReason> {
    if size > MAX_FILE_PREVIEW_BYTES {
        Some(FsFailureReason::TooLarge)
    } else if has_zero(bytes) || !valid_utf8(bytes) {
        Some(FsFailureReason::Binary)
    } else {
        None
    }
}

/// The answer to a request to show a file that was refused for `reason`.
pub fn read_failure(
    relative_path: &str,
    size: u64,
    reason: FsFailureReason,
    message: Option<String>,
) -> (r: FsReadResponse)
    ensures
        !r.ok,
        r.relative_path@ == relative_path@,
        r.content is None,
        r.size == size,
        r.max_size == MAX_FILE_PREVIEW_BYTES,
        r.reason == Some(reason),
        r.message == message,
{
    FsReadResponse {
        ok: false,
        relative_path: text_of(relative_path),
        content: None,
        size,
        max_size: MAX_FILE_PREVIEW_BYTES,
        reason: Some(reason),
        message,
    }
}

/// Whether a file of this size may be read at all.
pub fn fits_preview(size: u64) -> (r: bool)
    ensures
        r == (size <= MAX_FILE_PREVIEW_BYTES),
{
    size <= MAX_FILE_PREVIEW_BYTES
}

/// The answer to a request to show a file, given its size and its bytes. A
/// file with a zero byte, or whose bytes are not UTF-8, is not shown.
pub fn read_file(relative_path: &str, size: u64, bytes: Vec<u8>) -> (r: FsReadResponse)
    ensures
        r.relative_path@ == relative_path@,
        r.max_size == MAX_FILE_PREVIEW_BYTES,
        r.size == size,
        r.message is None,
        r.reason == read_problem(size, bytes@),
        r.ok == read_problem(size, bytes@) is None,
        opt_text(r.content) == (if read_problem(size, bytes@) is None {
            Some(decode_utf8(bytes@))
        } else {
            None
        }),
{
    if size > MAX_FILE_PREVIEW_BYTES {
        return read_failure(relative_path, size, FsFailureReason::TooLarge, None);
    }
    if contains_zero(bytes.as_slice()) {
        return read_failure(relative_path, size, FsFailureReason::Binary, None);
    }
    match string_from_utf8(bytes) {
        Some(content) => FsReadResponse {
            ok: true,
            relative_path: text_of(relative_path),
            content: Some(content),
            size,
            max_size: MAX_FILE_PREVIEW_BYTES,
            reason: None,
            message: None,
        },
        None => read_failure(relative_path, size, FsFailureReason::Binary, None),
    }
}

/// The answer to a request to write a file that was refused for `reason`.
pub fn write_failure(
    relative_path: &str,
    size: u64,
    reason: FsFailureReason,
    message: Option<String>,
) -> (r: FsWriteResponse)
    ensures
        !r.ok,
        r.relative_path@ == relative_path@,
        r.size == size,
        r.max_size == MAX_FILE_PREVIEW_BYTES,
        r.reason == Some(reason),
        r.message == message,
{
    FsWriteResponse {
        ok: false,
        relative_path: text_of(relative_path),
        size,
        max_size: MAX_FILE_PREVIEW_BYTES,
        reason: Some(reason),
        message,
    }
}

/// Why content cannot be written, if it cannot.
pub open spec fn write_problem(bytes: Seq<u8>) -> Option<FsFailureReason> {
    if bytes.len() > MAX_FILE_PREVIEW_BYTES {
        Some(FsFailureReason::TooLarge)
    } else if has_zero(bytes) {
        Some(FsFailureReason::Binary)
    } else {
        None
    }
}

/// Checks content that is to be written to a file: the answer that stands
/// if the write itself succeeds, or the refusal, in which case nothing is
/// written.
pub fn write_file(relative_path: &str, content: &str) -> (r: FsWriteResponse)
    ensures
        r.relative_path@ == relative_path@,
        r.max_size == MAX_FILE_PREVIEW_BYTES,
        r.size == encode_utf8(content@).len(),
        r.message is None,
        r.reason == write_problem(encode_utf8(content@)),
        r.ok == write_problem(encode_utf8(content@)) is None,
{
    let bytes = content.as_bytes();
    let size = bytes.len() as u64;
    if size > MAX_FILE_PREVIEW_BYTES {
        return write_failure(relative_path, size, FsFailureReason::TooLarge, None);
    }
    if contains_zero(bytes) {
        return write_failure(relative_path, size, FsFailureReason::Binary, None);
    }
    FsWriteResponse {
        ok: true,
        relative_path: text_of(relative_path),
        size,
        max_size: MAX_FILE_PREVIEW_BYTES,
        reason: None,
        message: None,
    }
}

/// A path with `/` for every `\`.
pub fn normalize_path(path: &str) -> (r: String)
    ensures
        r@ == with_char_replaced(path@, '\\', '/'),
{
    let chars = chars_of(path);
    string_of(replace_char(chars.as_slice(), '\\', '/').as_slice())
}

/// Whether a directory is passed over when a project is searched for
/// Markdown files: hidden ones, and those that hold what was built or
/// fetched.
pub open spec fn skipped_dir(name: Seq<char>) -> bool {
    has_prefix(name, seq!['.']) || name == "node_modules"@ || name == "target"@ || name
        == "dist"@ || name == "build"@
}

pub fn should_skip_dir(name: &str) -> (r: bool)
    ensures
        r == skipped_dir(name@),
{
    let chars = chars_of(name);
    let hidden = chars.len() > 0 && chars[0] == '.';
    assert(hidden == has_prefix(name@, seq!['.'])) by {
        if chars.len() > 0 {
            assert(name@.subrange(0, 1) =~= seq![name@[0]]);
            if has_prefix(name@, seq!['.']) {
                assert(name@.subrange(0, 1)[0] == '.');
            }
        }
    }
    hidden || is_text(chars.as_slice(), "node_modules") || is_text(chars.as_slice(), "target")
        || is_text(chars.as_slice(), "dist") || is_text(chars.as_slice(), "build")
}

/// Whether a directory right below a scanned directory is passed over.
pub fn should_skip_direct_dir(name: &str) -> (r: bool)
    ensures
        r == has_prefix(name@, seq!['.']),
{
    let chars = chars_of(name);
    let hidden = chars.len() > 0 && chars[0] == '.';
    assert(hidden == has_prefix(name@, seq!['.'])) by {
        if chars.len() > 0 {
            assert(name@.subrange(0, 1) =~= seq![name@[0]]);
            if has_prefix(name@, seq!['.']) {
                assert(name@.subrange(0, 1)[0] == '.');
            }
        }
    }
    hidden
}

/// Whether a directory further down is passed over when repositories are
/// searched for.
pub fn should_skip_recursive_dir(name: &str) -> (r: bool)
    ensures
        r == skipped_dir(name@),
{
    should_skip_dir(name)
}

/// Whether a file is a Markdown file: whether its extension is `md`, in
/// any case.
pub fn is_markdown_file(extension: Option<&str>) -> (r: bool)
    ensures
        r == (extension is Some && ascii_lowercase(extension->0@) == "md"@),
{
    match extension {
        Some(ext) => {
            let chars = chars_of(ext);
            let lower = to_ascii_lowercase(chars.as_slice());
            is_text(lower.as_slice(), "md")
        },
        None => false,
    }
}

pub open spec fn entry_paths(v: Seq<MarkdownFileEntry>) -> Seq<Seq<char>> {
    Seq::new(v.len(), |i: int| v[i].path@)
}

pub open spec fn entry_views(v: Seq<MarkdownFileEntry>) -> Seq<(Seq<char>, Seq<char>)> {
    Seq::new(v.len(), |i: int| (v[i].path@, v[i].absolute_path@))
}

/// The Markdown files of a project in the order of their paths; `found` is
/// what the search of the project's directory found.
pub fn list_markdown_files(found: &Vec<MarkdownFileEntry>) -> (r: Vec<MarkdownFileEntry>)
    ensures
        r.len() == found.len(),
        forall|i: int|
            0 <= i < r.len() ==> (#[trigger] entry_views(r@)[i]) == entry_views(found@)[text_order(
                entry_paths(found@),
                found@.len(),
            )[i]],
{
    let mut keys: Vec<String> = Vec::new();
    let mut k: usize = 0;
    while k < found.len()
        invariant
            k <= found.len(),
            texts(keys@) == entry_paths(found@).subrange(0, k as int),
        decreases found.len() - k,
    {
        let ghost before = texts(keys@);
        keys.push(text_of(found[k].path.as_str()));
        assert(texts(keys@) =~= before.push(found@[k as int].path@));
        k += 1;
        assert(texts(keys@) =~= entry_paths(found@).subrange(0, k as int));
    }
    assert(texts(keys@) =~= entry_paths(found@));
    let order = order_by_text(&keys);
    assert(crate::sorting::texts(keys@) =~= texts(keys@));
    let mut out: Vec<MarkdownFileEntry> = Vec::new();
    let mut i: usize = 0;
    while i < order.len()
        invariant
            i <= order.len(),
            order.len() == found.len(),
            out.len() == i,
            forall|j: int| 0 <= j < order.len() ==> order@[j] < found.len(),
            places(order@) == text_order(entry_paths(found@), found@.len()),
            forall|j: int|
                0 <= j < i ==> (#[trigger] entry_views(out@)[j]) == entry_views(
                    found@,
                )[order@[j] as int],
        decreases order.len() - i,
    {
        let entry = &found[order[i]];
        let ghost old_views = entry_views(out@);
        out.push(
            MarkdownFileEntry {
                path: text_of(entry.path.as_str()),
                absolute_path: text_of(entry.absolute_path.as_str()),
            },
        );
        assert(entry_views(out@) =~= old_views.push((entry.path@, entry.absolute_path@)));
        i += 1;
    }
    assert forall|i: int| 0 <= i < out.len() implies (#[trigger] entry_views(out@)[i])
        == entry_views(found@)[text_order(entry_paths(found@), found@.len())[i]] by {
        assert(places(order@)[i] == order@[i] as int);
    }
    out
}

/// The directories that hold projects, each once, in the order of their
/// paths; `found` is what the scan of each directory found.
pub fn discover_projects(found: &Vec<String>) -> (r: Vec<String>)
    ensures
        texts(r@) == sorted_unique(texts(found@)),
{
    let out = sort_and_dedup(found);
    assert(crate::sorting::texts(out@) =~= texts(out@));
    assert(crate::sorting::texts(found@) =~= texts(found@));
    out
}

/// The notes of a project as they are shown: none where the file holds
/// only white space.
pub fn read_notes(content: Option<String>) -> (r: Option<String>)
    ensures
        r == (match content {
            Some(c) => if trim(c@).len() == 0 {
                None
            } else {
                Some(c)
            },
            None => None,
        }),
{
    match content {
        Some(c) => {
            let chars = chars_of(c.as_str());
            if trim_slice(chars.as_slice()).len() == 0 {
                None
            } else {
                Some(c)
            }
        },
        None => None,
    }
}

/// What a directory holds, as the file system reports it.
#[derive(Debug, Clone, PartialEq, Eq)]
pub struct RawEntry {
    pub name: String,
    pub relative_path: String,
    pub is_symlink: bool,
    pub is_dir: bool,
    pub is_file: bool,
    pub size: Option<u64>,
}

pub struct EntryView {
    pub name: Seq<char>,
    pub relative_path: Seq<char>,
    pub kind: FsEntryKind,
    pub size: Option<u64>,
}

impl View for FsEntry {
    type V = EntryView;

    open spec fn view(&self) -> EntryView {
        EntryView {
            name: self.name@,
            relative_path: self.relative_path@,
            kind: self.kind,
            size: self.size,
        }
    }
}

pub open spec fn listed_views(v: Seq<FsEntry>) -> Seq<EntryView> {
    Seq::new(v.len(), |i: int| v[i]@)
}

/// The entry that is listed for what the file system reports, if one is:
/// links are not listed, nor hidden entries unless asked for, nor what is
/// neither a directory nor a file. Only files have a size.
pub open spec fn listed_entry(raw: RawEntry, show_hidden: bool) -> Option<EntryView> {
    if raw.is_symlink || (!show_hidden && has_prefix(raw.name@, seq!['.'])) || (!raw.is_dir
        && !raw.is_file) {
        None
    } else {
        Some(
            EntryView {
                name: raw.name@,
                relative_path: with_char_replaced(raw.relative_path@, '\\', '/'),
                kind: if raw.is_dir {
                    FsEntryKind::Dir
                } else {
                    FsEntryKind::File
                },
                size: if raw.is_dir {
                    None
                } else {
                    raw.size
                },
            },
        )
    }
}

pub open spec fn listed_entries(raw: Seq<RawEntry>, show_hidden: bool) -> Seq<EntryView>
    decreases raw.len(),
{
    if raw.len() == 0 {
        seq![]
    } else {
        match listed_entry(raw.last(), show_hidden) {
            Some(e) => listed_entries(raw.drop_last(), show_hidden).push(e),
            None => listed_entries(raw.drop_last(), show_hidden),
        }
    }
}

/// The key by which entries are ordered: directories before files, and
/// within each the names in lower case.
pub open spec fn entry_key(e: EntryView) -> Seq<char> {
    seq![if e.kind == FsEntryKind::Dir {
        '0'
    } else {
        '1'
    }] + unicode_lowercase(e.name)
}

pub open spec fn entry_keys(entries: Seq<EntryView>) -> Seq<Seq<char>> {
    Seq::new(entries.len(), |i: int| entry_key(entries[i]))
}

fn list_entry(raw: &RawEntry, show_hidden: bool) -> (r: Option<FsEntry>)
    ensures
        match r {
            Some(e) => listed_entry(*raw, show_hidden) == Some(e@),
            None => listed_entry(*raw, show_hidden) is None,
        },
{
    if raw.is_symlink {
        return None;
    }
    if !show_hidden && should_skip_direct_dir(raw.name.as_str()) {
        return None;
    }
    if !raw.is_dir && !raw.is_file {
        return None;
    }
    Some(
        FsEntry {
            name: text_of(raw.name.as_str()),
            relative_path: normalize_path(raw.relative_path.as_str()),
            kind: if raw.is_dir {
                FsEntryKind::Dir
            } else {
                FsEntryKind::File
            },
            size: if raw.is_dir {
                None
            } else {
                raw.size
            },
        },
    )
}

fn key_of_entry(entry: &FsEntry) -> (r: String)
    ensures
        r@ == entry_key(entry@),
{
    let lower = lowercase_of(entry.name.as_str());
    let mut key: Vec<char> = Vec::new();
    key.push(match entry.kind {
        FsEntryKind::Dir => '0',
        FsEntryKind::File => '1',
    });
    let name = chars_of(lower.as_str());
    crate::text::push_chars(&mut key, name.as_slice());
    assert(key@ =~= entry_key(entry@));
    string_of(key.as_slice())
}

/// The listing of a directory: the entries that are listed of what the
/// file system reports, directories first, each kind in the order of its
/// names in lower case.
pub fn list_dir_entries(relative_path: &str, raw: &Vec<RawEntry>, show_hidden: bool) -> (r:
    FsListResponse)
    ensures
        r.ok,
        r.relative_path@ == relative_path@,
        r.reason is None,
        r.message is None,
        ({
            let listed = listed_entries(raw@, show_hidden);
            let order = text_order(entry_keys(listed), listed.len());
            &&& r.entries.len() == listed.len()
            &&& forall|i: int|
                0 <= i < r.entries.len() ==> (#[trigger] listed_views(r.entries@)[i])
                    == listed[order[i]]
        }),
{
    let mut kept: Vec<FsEntry> = Vec::new();
    let mut keys: Vec<String> = Vec::new();
    let mut i: usize = 0;
    assert(listed_views(kept@) =~= listed_entries(raw@.subrange(0, 0), show_hidden));
    assert(texts(keys@) =~= entry_keys(listed_views(kept@)));
    while i < raw.len()
        invariant
            i <= raw.len(),
            kept.len() == keys.len(),
            listed_views(kept@) == listed_entries(raw@.subrange(0, i as int), show_hidden),
            texts(keys@) == entry_keys(listed_views(kept@)),
        decreases raw.len() - i,
    {
        let ghost after = raw@.subrange(0, i + 1);
        assert(after.drop_last() =~= raw@.subrange(0, i as int));
        assert(after.last() == raw@[i as int]);
        if let Some(entry) = list_entry(&raw[i], show_hidden) {
            let ghost before = listed_views(kept@);
            let ghost before_keys = texts(keys@);
            let key = key_of_entry(&entry);
            kept.push(entry);
            keys.push(key);
            assert(listed_views(kept@) =~= before.push(entry@));
            assert(texts(keys@) =~= before_keys.push(key@));
            assert(texts(keys@) =~= entry_keys(listed_views(kept@)));
        }
        i += 1;
    }
    assert(raw@.subrange(0, raw@.len() as int) =~= raw@);
    let order = order_by_text(&keys);
    assert(crate::sorting::texts(keys@) =~= texts(keys@));
    let ghost listed = listed_views(kept@);
    let mut entries: Vec<FsEntry> = Vec::new();
    let mut k: usize = 0;
    while k < order.len()
        invariant
            k <= order.len(),
            entries.len() == k,
            order.len() == kept.len(),
            listed == listed_views(kept@),
            forall|j: int| 0 <= j < order.len() ==> (#[trigger] order@[j]) < kept.len(),
            forall|j: int|
                0 <= j < k ==> (#[trigger] listed_views(entries@)[j]) == listed[order@[j] as int],
        decreases order.len() - k,
    {
        let entry = &kept[order[k]];
        let ghost before = listed_views(entries@);
        entries.push(
            FsEntry {
                name: text_of(entry.name.as_str()),
                relative_path: text_of(entry.relative_path.as_str()),
                kind: entry.kind,
                size: entry.size,
            },
        );
        assert(listed_views(entries@) =~= before.push(entry@));
        k += 1;
    }
    assert forall|i: int| 0 <= i < entries.len() implies (#[trigger] listed_views(entries@)[i])
        == listed[text_order(entry_keys(listed), listed.len())[i]] by {
        assert(places(order@)[i] == order@[i] as int);
    }
    FsListResponse {
        ok: true,
        relative_path: text_of(relative_path),
        entries,
        reason: None,
        message: None,
    }
}

/// The answer to a request to list a directory that was refused for
/// `reason`.
pub fn list_failure(relative_path: &str, reason: FsFailureReason, message: Option<String>) -> (r:
    FsListResponse)
    ensures
        !r.ok,
        r.relative_path@ == relative_path@,
        r.entries@.len() == 0,
        r.reason == Some(reason),
        r.message == message,
{
    FsListResponse {
        ok: false,
        relative_path: text_of(relative_path),
        entries: Vec::new(),
        reason: Some(reason),
        message,
    }
}

} // verus!
