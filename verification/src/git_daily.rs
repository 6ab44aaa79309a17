//! Commits per day: how a log of authors and dates is counted.

use crate::command::{lowercase_of, unicode_lowercase};
use crate::fields::{digits_of, fields, lines, rows, split_lines, split_on, unsigned_chars};
use crate::models::{GitDailyResult, GitIdentity};
use crate::text::{
    chars_of, push_chars, str_eq, string_of, text_le, text_of, text_precedes, trim, trim_slice,
};
use vstd::prelude::*;

verus! {

pub open spec fn opt_text(o: Option<String>) -> Option<Seq<char>> {
    match o {
        Some(s) => Some(s@),
        None => None,
    }
}

pub open spec fn texts(items: Seq<String>) -> Seq<Seq<char>> {
    Seq::new(items.len(), |i: int| items[i]@)
}

/// A name or an address as identities are compared: trimmed and in lower
/// case; nothing where it is blank.
pub open spec fn identity_value(value: Seq<char>) -> Option<Seq<char>> {
    if trim(value).len() == 0 {
        None
    } else {
        Some(unicode_lowercase(trim(value)))
    }
}

pub fn normalize_identity_value(value: &str) -> (r: Option<String>)
    ensures
        opt_text(r) == identity_value(value@),
{
    let chars = chars_of(value);
    let trimmed = trim_slice(chars.as_slice());
    if trimmed.len() == 0 {
        None
    } else {
        let text = string_of(trimmed);
        Some(lowercase_of(text.as_str()))
    }
}

/// The names and addresses that count as the user's own.
pub struct IdentityMatcher {
    tokens: Vec<String>,
}

impl View for IdentityMatcher {
    type V = Seq<Seq<char>>;

    closed spec fn view(&self) -> Seq<Seq<char>> {
        texts(self.tokens@)
    }
}

pub open spec fn identity_views(v: Seq<GitIdentity>) -> Seq<(Seq<char>, Seq<char>)> {
    Seq::new(v.len(), |i: int| (v[i].name@, v[i].email@))
}

/// The values of the identities, names and addresses alike, blank ones
/// left out.
pub open spec fn identity_tokens(ids: Seq<(Seq<char>, Seq<char>)>) -> Seq<Seq<char>>
    decreases ids.len(),
{
    if ids.len() == 0 {
        seq![]
    } else {
        let head = identity_tokens(ids.drop_last());
        let with_name = match identity_value(ids.last().0) {
            Some(v) => head.push(v),
            None => head,
        };
        match identity_value(ids.last().1) {
            Some(v) => with_name.push(v),
            None => with_name,
        }
    }
}

/// Whether a commit by `name` and `email` is the user's own: every commit
/// is where no identity is configured; else one whose name or address is
/// among the configured values.
pub open spec fn is_own(tokens: Seq<Seq<char>>, name: Seq<char>, email: Seq<char>) -> bool {
    tokens.len() == 0 || (identity_value(name) is Some && tokens.contains(
        identity_value(name)->0,
    )) || (identity_value(email) is Some && tokens.contains(identity_value(email)->0))
}

fn holds(tokens: &Vec<String>, value: &str) -> (r: bool)
    ensures
        r == texts(tokens@).contains(value@),
{
    let mut i: usize = 0;
    while i < tokens.len()
        invariant
            i <= tokens.len(),
            forall|k: int| 0 <= k < i ==> texts(tokens@)[k] != value@,
        decreases tokens.len() - i,
    {
        if str_eq(tokens[i].as_str(), value) {
            assert(texts(tokens@)[i as int] == value@);
            return true;
        }
        i += 1;
    }
    false
}

impl IdentityMatcher {
    pub fn new(identities: &Vec<GitIdentity>) -> (m: Self)
        ensures
            m@ == identity_tokens(identity_views(identities@)),
    {
        let mut tokens: Vec<String> = Vec::new();
        let mut i: usize = 0;
        assert(texts(tokens@) =~= identity_tokens(identity_views(identities@).subrange(0, 0)));
        while i < identities.len()
            invariant
                i <= identities.len(),
                texts(tokens@) == identity_tokens(
                    identity_views(identities@).subrange(0, i as int),
                ),
            decreases identities.len() - i,
        {
            let ghost after = identity_views(identities@).subrange(0, i + 1);
            assert(after.drop_last() =~= identity_views(identities@).subrange(0, i as int));
            assert(after.last() == (identities@[i as int].name@, identities@[i as int].email@));
            if let Some(value) = normalize_identity_value(identities[i].name.as_str()) {
                let ghost before = texts(tokens@);
                tokens.push(value);
                assert(texts(tokens@) =~= before.push(value@));
            }
            if let Some(value) = normalize_identity_value(identities[i].email.as_str()) {
                let ghost before = texts(tokens@);
                tokens.push(value);
                assert(texts(tokens@) =~= before.push(value@));
            }
            i += 1;
        }
        assert(identity_views(identities@).subrange(0, identities@.len() as int)
            =~= identity_views(identities@));
        IdentityMatcher { tokens }
    }

    pub fn matches(&self, name: &str, email: &str) -> (r: bool)
        ensures
            r == is_own(self@, name@, email@),
    {
        if self.tokens.len() == 0 {
            return true;
        }
        let by_name = match normalize_identity_value(name) {
            Some(value) => holds(&self.tokens, value.as_str()),
            None => false,
        };
        if by_name {
            return true;
        }
        match normalize_identity_value(email) {
            Some(value) => holds(&self.tokens, value.as_str()),
            None => false,
        }
    }
}

/// The date of a log line if the line counts: the line is made of a name,
/// an address and a date, with U+001F between them; it counts if it has a
/// date and its author is the user.
pub open spec fn counted_date(tokens: Seq<Seq<char>>, line: Seq<char>) -> Option<Seq<char>> {
    let parts = fields(line, '\u{1f}');
    let name = parts[0];
    let email = if parts.len() > 1 {
        parts[1]
    } else {
        seq![]
    };
    let date = if parts.len() > 2 {
        trim(parts[2])
    } else {
        seq![]
    };
    if trim(line).len() == 0 || date.len() == 0 || !is_own(tokens, name, email) {
        None
    } else {
        Some(date)
    }
}

/// Index of the first count at or after `i` whose date is not before
/// `date`.
pub open spec fn date_place(counts: Seq<(Seq<char>, nat)>, date: Seq<char>, i: int) -> int
    decreases counts.len() - i,
{
    if 0 <= i < counts.len() && counts[i].0 != date && text_le(counts[i].0, date) {
        date_place(counts, date, i + 1)
    } else {
        i
    }
}

/// The counts with one more commit on `date`; the counts stay in the order
/// of their dates.
pub open spec fn counted(counts: Seq<(Seq<char>, nat)>, date: Seq<char>) -> Seq<(Seq<char>, nat)> {
    let p = date_place(counts, date, 0);
    if 0 <= p < counts.len() && counts[p].0 == date {
        counts.update(p, (date, counts[p].1 + 1))
    } else {
        counts.insert(p, (date, 1))
    }
}

/// The commits per day of a log.
pub open spec fn daily_counts(tokens: Seq<Seq<char>>, rows: Seq<Seq<char>>) -> Seq<
    (Seq<char>, nat),
>
    decreases rows.len(),
{
    if rows.len() == 0 {
        seq![]
    } else {
        let head = daily_counts(tokens, rows.drop_last());
        match counted_date(tokens, rows.last()) {
            Some(date) => counted(head, date),
            None => head,
        }
    }
}

/// The counts as one text: `date:count`, with commas between the days.
pub open spec fn counts_text(counts: Seq<(Seq<char>, nat)>) -> Seq<char>
    decreases counts.len(),
{
    if counts.len() == 0 {
        seq![]
    } else if counts.len() == 1 {
        counts[0].0 + seq![':'] + digits_of(counts[0].1)
    } else {
        counts_text(counts.drop_last()) + seq![','] + counts.last().0 + seq![':'] + digits_of(
            counts.last().1,
        )
    }
}

pub open spec fn count_views(v: Seq<(String, u64)>) -> Seq<(Seq<char>, nat)> {
    Seq::new(v.len(), |i: int| (v[i].0@, v[i].1 as nat))
}

fn count_date(counts: &mut Vec<(String, u64)>, date: &[char], bound: u64)
    requires
        bound < u64::MAX,
        forall|i: int| 0 <= i < old(counts).len() ==> (#[trigger] old(counts)@[i]).1 <= bound,
    ensures
        count_views(final(counts)@) == counted(count_views(old(counts)@), date@),
        forall|i: int| 0 <= i < final(counts).len() ==> (#[trigger] final(counts)@[i]).1 <= bound
            + 1,
{
    let mut p: usize = 0;
    loop
        invariant
            p <= counts.len(),
            *counts == *old(counts),
            date_place(count_views(counts@), date@, 0) == date_place(
                count_views(counts@),
                date@,
                p as int,
            ),
        ensures
            p <= counts.len(),
            *counts == *old(counts),
            p == date_place(count_views(counts@), date@, 0),
        decreases counts.len() - p,
    {
        if p >= counts.len() {
            break ;
        }
        let other = chars_of(counts[p].0.as_str());
        assert(count_views(counts@)[p as int].0 == other@);
        if crate::text::same_text(other.as_slice(), date) || !text_precedes(
            other.as_slice(),
            date,
        ) {
            break ;
        }
        p += 1;
    }
    let ghost before = count_views(counts@);
    let same = if p < counts.len() {
        let other = chars_of(counts[p].0.as_str());
        assert(before[p as int].0 == other@);
        crate::text::same_text(other.as_slice(), date)
    } else {
        false
    };
    let ghost start = counts@;
    if same {
        let (name, n) = counts.remove(p);
        assert(n == start[p as int].1);
        proof {
            start.remove_ensures(p as int);
        }
        let ghost middle = counts@;
        counts.insert(p, (name, n + 1));
        proof {
            middle.insert_ensures(p as int, (name, (n + 1) as u64));
        }
        assert(count_views(counts@) =~= before.update(p as int, (date@, (n + 1) as nat)));
        assert forall|i: int| 0 <= i < counts.len() implies (#[trigger] counts@[i]).1 <= bound
            + 1 by {
            if i < p {
                assert(counts@[i] == start[i]);
            } else if i > p {
                assert(counts@[i] == middle[i - 1]);
                assert(middle[i - 1] == start[i]);
            }
        }
    } else {
        counts.insert(p, (string_of(date), 1));
        proof {
            start.insert_ensures(p as int, counts@[p as int]);
        }
        assert(count_views(counts@) =~= before.insert(p as int, (date@, 1nat)));
        assert forall|i: int| 0 <= i < counts.len() implies (#[trigger] counts@[i]).1 <= bound
            + 1 by {
            if i < p {
                assert(counts@[i] == start[i]);
            } else if i > p {
                assert(counts@[i] == start[i - 1]);
            }
        }
    }
}

fn counts_to_text(counts: &Vec<(String, u64)>) -> (r: String)
    ensures
        r@ == counts_text(count_views(counts@)),
{
    let mut out: Vec<char> = Vec::new();
    let mut i: usize = 0;
    while i < counts.len()
        invariant
            i <= counts.len(),
            out@ == counts_text(count_views(counts@).subrange(0, i as int)),
        decreases counts.len() - i,
    {
        let ghost after = count_views(counts@).subrange(0, i + 1);
        assert(after.drop_last() =~= count_views(counts@).subrange(0, i as int));
        assert(after.last() == (counts@[i as int].0@, counts@[i as int].1 as nat));
        if i > 0 {
            out.push(',');
        }
        let date = chars_of(counts[i].0.as_str());
        push_chars(&mut out, date.as_slice());
        out.push(':');
        let number = unsigned_chars(counts[i].1);
        push_chars(&mut out, number.as_slice());
        assert(out@ =~= counts_text(after));
        i += 1;
    }
    assert(count_views(counts@).subrange(0, counts@.len() as int) =~= count_views(counts@));
    string_of(out.as_slice())
}

/// The user's commits per day, from the output of `git log` with the
/// author's name, address and the date of each commit. A log without a
/// commit that counts gives nothing.
pub fn count_daily(log: &str, matcher: &IdentityMatcher) -> (r: Option<String>)
    ensures
        opt_text(r) == ({
            let counts = daily_counts(matcher@, lines(log@));
            if counts.len() == 0 {
                None
            } else {
                Some(counts_text(counts))
            }
        }),
{
    let chars = chars_of(log);
    let all = split_lines(chars.as_slice());
    let mut counts: Vec<(String, u64)> = Vec::new();
    let mut i: usize = 0;
    assert(count_views(counts@) =~= daily_counts(matcher@, rows(all@).subrange(0, 0)));
    while i < all.len()
        invariant
            i <= all.len(),
            count_views(counts@) == daily_counts(matcher@, rows(all@).subrange(0, i as int)),
            forall|k: int| 0 <= k < counts.len() ==> (#[trigger] counts@[k]).1 <= i,
        decreases all.len() - i,
    {
        let ghost after = rows(all@).subrange(0, i + 1);
        assert(after.drop_last() =~= rows(all@).subrange(0, i as int));
        assert(after.last() == all@[i as int]@);
        let line = all[i].as_slice();
        let parts = split_on(line, '\u{1f}');
        assert(forall|k: int| 0 <= k < parts.len() ==> rows(parts@)[k] == parts@[k]@);
        let empty: Vec<char> = Vec::new();
        let name = string_of(parts[0].as_slice());
        let email = if parts.len() > 1 {
            string_of(parts[1].as_slice())
        } else {
            string_of(empty.as_slice())
        };
        let date = if parts.len() > 2 {
            trim_slice(parts[2].as_slice())
        } else {
            empty.as_slice()
        };
        if trim_slice(line).len() > 0 && date.len() > 0 && matcher.matches(
            name.as_str(),
            email.as_str(),
        ) {
            count_date(&mut counts, date, i as u64);
        }
        i += 1;
    }
    assert(rows(all@).subrange(0, all@.len() as int) =~= rows(all@));
    if counts.len() == 0 {
        return None;
    }
    Some(counts_to_text(&counts))
}

pub open spec fn log_failed() -> Seq<char> {
    "git log 返回失败: "@
}

pub open spec fn log_not_started() -> Seq<char> {
    "执行 git log 失败: "@
}

/// What is known of one repository's log.
#[derive(Debug, Clone, PartialEq, Eq)]
pub enum LogOutcome {
    /// The path holds no repository.
    NoRepository,
    /// `git log` could not be started.
    NotStarted(String),
    /// `git log` failed, with this on standard error.
    Failed(String),
    /// `git log` printed this.
    Printed(String),
}

pub struct DailyView {
    pub path: Seq<char>,
    pub git_daily: Option<Seq<char>>,
    pub error: Option<Seq<char>>,
}

impl View for GitDailyResult {
    type V = DailyView;

    open spec fn view(&self) -> DailyView {
        DailyView {
            path: self.path@,
            git_daily: opt_text(self.git_daily),
            error: opt_text(self.error),
        }
    }
}

/// The commits per day of one repository, from what is known of its log:
/// nothing where there is no repository, the failure where the log could
/// not be had, else the counts of the commits that are the user's own.
pub open spec fn daily_result(path: Seq<char>, outcome: LogOutcome, tokens: Seq<Seq<char>>) -> DailyView {
    match outcome {
        LogOutcome::NoRepository => DailyView { path, git_daily: None, error: None },
        LogOutcome::NotStarted(e) => DailyView {
            path,
            git_daily: None,
            error: Some(log_not_started() + e@),
        },
        LogOutcome::Failed(e) => DailyView { path, git_daily: None, error: Some(log_failed() + e@) },
        LogOutcome::Printed(log) => {
            let counts = daily_counts(tokens, lines(log@));
            DailyView {
                path,
                git_daily: if counts.len() == 0 {
                    None
                } else {
                    Some(counts_text(counts))
                },
                error: None,
            }
        },
    }
}

pub fn collect_single(path: &str, outcome: &LogOutcome, matcher: &IdentityMatcher) -> (r:
    GitDailyResult)
    ensures
        r@ == daily_result(path@, *outcome, matcher@),
{
    match outcome {
        LogOutcome::NoRepository => GitDailyResult {
            path: text_of(path),
            git_daily: None,
            error: None,
        },
        LogOutcome::NotStarted(e) => {
            let mut message = chars_of("执行 git log 失败: ");
            let detail = chars_of(e.as_str());
            push_chars(&mut message, detail.as_slice());
            GitDailyResult {
                path: text_of(path),
                git_daily: None,
                error: Some(string_of(message.as_slice())),
            }
        },
        LogOutcome::Failed(e) => {
            let mut message = chars_of("git log 返回失败: ");
            let detail = chars_of(e.as_str());
            push_chars(&mut message, detail.as_slice());
            GitDailyResult {
                path: text_of(path),
                git_daily: None,
                error: Some(string_of(message.as_slice())),
            }
        },
        LogOutcome::Printed(log) => GitDailyResult {
            path: text_of(path),
            git_daily: count_daily(log.as_str(), matcher),
            error: None,
        },
    }
}

/// The commits per day of each repository, in the order given: each path
/// comes with what is known of its log.
pub fn collect_git_daily(logs: &Vec<(String, LogOutcome)>, identities: &Vec<GitIdentity>) -> (r:
    Vec<GitDailyResult>)
    ensures
        r.len() == logs.len(),
        forall|i: int|
            0 <= i < r.len() ==> (#[trigger] r@[i])@ == daily_result(
                logs@[i].0@,
                logs@[i].1,
                identity_tokens(identity_views(identities@)),
            ),
{
    let matcher = IdentityMatcher::new(identities);
    let mut out: Vec<GitDailyResult> = Vec::new();
    let mut i: usize = 0;
    while i < logs.len()
        invariant
            i <= logs.len(),
            out.len() == i,
            matcher@ == identity_tokens(identity_views(identities@)),
            forall|k: int|
                0 <= k < i ==> (#[trigger] out@[k])@ == daily_result(
                    logs@[k].0@,
                    logs@[k].1,
                    matcher@,
                ),
        decreases logs.len() - i,
    {
        out.push(collect_single(logs[i].0.as_str(), &logs[i].1, &matcher));
        i += 1;
    }
    out
}

} // verus!
