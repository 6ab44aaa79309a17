//! What the multiplexer prints in reply to one-shot invocations, read into
//! typed records.

use crate::command::{flag_is_set, parse_tmux_flag};
use crate::fields::{decimal, fields, lines, parse_decimal, rows, split_lines, split_on};
use crate::text::{chars_of, string_of, trim, trim_slice};
use vstd::prelude::*;

verus! {

/// A session of the multiplexer and the project it belongs to.
#[derive(Debug, Clone, PartialEq, Eq)]
pub struct TerminalSessionInfo {
    pub id: String,
    pub project_id: String,
    pub project_path: String,
    pub created_at: i64,
}

#[derive(Debug, Clone, PartialEq, Eq)]
pub struct TmuxWindowInfo {
    pub id: String,
    pub index: i32,
    pub name: String,
    pub is_active: bool,
    pub width: u16,
    pub height: u16,
}

pub struct WindowView {
    pub id: Seq<char>,
    pub index: i32,
    pub name: Seq<char>,
    pub is_active: bool,
    pub width: u16,
    pub height: u16,
}

impl View for TmuxWindowInfo {
    type V = WindowView;

    open spec fn view(&self) -> WindowView {
        WindowView {
            id: self.id@,
            index: self.index,
            name: self.name@,
            is_active: self.is_active,
            width: self.width,
            height: self.height,
        }
    }
}

#[derive(Debug, Clone, PartialEq, Eq)]
pub struct TmuxPaneInfo {
    pub id: String,
    pub left: u16,
    pub top: u16,
    pub width: u16,
    pub height: u16,
    pub is_active: bool,
}

pub struct PaneView {
    pub id: Seq<char>,
    pub left: u16,
    pub top: u16,
    pub width: u16,
    pub height: u16,
    pub is_active: bool,
}

impl View for TmuxPaneInfo {
    type V = PaneView;

    open spec fn view(&self) -> PaneView {
        PaneView {
            id: self.id@,
            left: self.left,
            top: self.top,
            width: self.width,
            height: self.height,
            is_active: self.is_active,
        }
    }
}

#[derive(Debug, Clone, Copy, PartialEq, Eq)]
pub struct TmuxPaneCursor {
    pub col: u16,
    pub row: u16,
}

/// The number that `s` spells if it spells one in range, else 0.
pub open spec fn number_or_zero(s: Seq<char>, lo: int, hi: int) -> int {
    match decimal(s, lo, hi) {
        Some(v) => v,
        None => 0,
    }
}

pub fn parse_u16_or_zero(s: &[char]) -> (r: u16)
    ensures
        r == number_or_zero(s@, 0, 0xFFFF),
{
    match parse_decimal(s, 0, 0xFFFF) {
        Some(v) => v as u16,
        None => 0,
    }
}

pub fn parse_i32_or_zero(s: &[char]) -> (r: i32)
    ensures
        r == number_or_zero(s@, -0x8000_0000, 0x7FFF_FFFF),
{
    match parse_decimal(s, -0x8000_0000, 0x7FFF_FFFF) {
        Some(v) => v as i32,
        None => 0,
    }
}

/// The window that one line of a window listing describes: six fields
/// between tabs, or more. A line with fewer describes none.
pub open spec fn window_of(line: Seq<char>) -> Option<WindowView> {
    let parts = fields(line, '\t');
    if parts.len() < 6 {
        None
    } else {
        Some(
            WindowView {
                id: parts[0],
                index: number_or_zero(parts[1], -0x8000_0000, 0x7FFF_FFFF) as i32,
                name: parts[2],
                is_active: flag_is_set(parts[3]),
                width: number_or_zero(parts[4], 0, 0xFFFF) as u16,
                height: number_or_zero(parts[5], 0, 0xFFFF) as u16,
            },
        )
    }
}

pub open spec fn windows_of(rows: Seq<Seq<char>>) -> Seq<WindowView>
    decreases rows.len(),
{
    if rows.len() == 0 {
        seq![]
    } else {
        match window_of(rows.last()) {
            Some(w) => windows_of(rows.drop_last()).push(w),
            None => windows_of(rows.drop_last()),
        }
    }
}

pub open spec fn window_views(v: Seq<TmuxWindowInfo>) -> Seq<WindowView> {
    Seq::new(v.len(), |i: int| v[i]@)
}

pub fn parse_window_line(line: &[char]) -> (r: Option<TmuxWindowInfo>)
    ensures
        match r {
            Some(w) => window_of(line@) == Some(w@),
            None => window_of(line@) is None,
        },
{
    let parts = split_on(line, '\t');
    if parts.len() < 6 {
        return None;
    }
    assert(forall|i: int| 0 <= i < parts.len() ==> rows(parts@)[i] == parts@[i]@);
    Some(
        TmuxWindowInfo {
            id: string_of(parts[0].as_slice()),
            index: parse_i32_or_zero(parts[1].as_slice()),
            name: string_of(parts[2].as_slice()),
            is_active: parse_tmux_flag(parts[3].as_slice()),
            width: parse_u16_or_zero(parts[4].as_slice()),
            height: parse_u16_or_zero(parts[5].as_slice()),
        },
    )
}

/// The windows that a window listing describes, in the order of its lines.
pub fn parse_window_list(output: &str) -> (r: Vec<TmuxWindowInfo>)
    ensures
        window_views(r@) == windows_of(lines(output@)),
{
    let chars = chars_of(output);
    let all = split_lines(chars.as_slice());
    let mut out: Vec<TmuxWindowInfo> = Vec::new();
    let mut i: usize = 0;
    while i < all.len()
        invariant
            i <= all.len(),
            window_views(out@) == windows_of(rows(all@).subrange(0, i as int)),
        decreases all.len() - i,
    {
        let ghost before = rows(all@).subrange(0, i as int);
        let ghost after = rows(all@).subrange(0, i + 1);
        assert(after.drop_last() =~= before);
        assert(after.last() == all@[i as int]@);
        let ghost old_views = window_views(out@);
        match parse_window_line(all[i].as_slice()) {
            Some(w) => {
                out.push(w);
                assert(window_views(out@) =~= old_views.push(w@));
            },
            None => {},
        }
        i += 1;
    }
    assert(rows(all@).subrange(0, all@.len() as int) =~= rows(all@));
    out
}

/// The pane that one line of a pane listing describes.
pub open spec fn pane_of(line: Seq<char>) -> Option<PaneView> {
    let parts = fields(line, '\t');
    if parts.len() < 6 {
        None
    } else {
        Some(
            PaneView {
                id: parts[0],
                left: number_or_zero(parts[1], 0, 0xFFFF) as u16,
                top: number_or_zero(parts[2], 0, 0xFFFF) as u16,
                width: number_or_zero(parts[3], 0, 0xFFFF) as u16,
                height: number_or_zero(parts[4], 0, 0xFFFF) as u16,
                is_active: flag_is_set(parts[5]),
            },
        )
    }
}

pub open spec fn panes_of(rows: Seq<Seq<char>>) -> Seq<PaneView>
    decreases rows.len(),
{
    if rows.len() == 0 {
        seq![]
    } else {
        match pane_of(rows.last()) {
            Some(p) => panes_of(rows.drop_last()).push(p),
            None => panes_of(rows.drop_last()),
        }
    }
}

pub open spec fn pane_views(v: Seq<TmuxPaneInfo>) -> Seq<PaneView> {
    Seq::new(v.len(), |i: int| v[i]@)
}

pub fn parse_pane_line(line: &[char]) -> (r: Option<TmuxPaneInfo>)
    ensures
        match r {
            Some(p) => pane_of(line@) == Some(p@),
            None => pane_of(line@) is None,
        },
{
    let parts = split_on(line, '\t');
    if parts.len() < 6 {
        return None;
    }
    assert(forall|i: int| 0 <= i < parts.len() ==> rows(parts@)[i] == parts@[i]@);
    Some(
        TmuxPaneInfo {
            id: string_of(parts[0].as_slice()),
            left: parse_u16_or_zero(parts[1].as_slice()),
            top: parse_u16_or_zero(parts[2].as_slice()),
            width: parse_u16_or_zero(parts[3].as_slice()),
            height: parse_u16_or_zero(parts[4].as_slice()),
            is_active: parse_tmux_flag(parts[5].as_slice()),
        },
    )
}

/// The panes that a pane listing describes, in the order of its lines.
pub fn parse_pane_list(output: &str) -> (r: Vec<TmuxPaneInfo>)
    ensures
        pane_views(r@) == panes_of(lines(output@)),
{
    let chars = chars_of(output);
    let all = split_lines(chars.as_slice());
    let mut out: Vec<TmuxPaneInfo> = Vec::new();
    let mut i: usize = 0;
    while i < all.len()
        invariant
            i <= all.len(),
            pane_views(out@) == panes_of(rows(all@).subrange(0, i as int)),
        decreases all.len() - i,
    {
        let ghost before = rows(all@).subrange(0, i as int);
        let ghost after = rows(all@).subrange(0, i + 1);
        assert(after.drop_last() =~= before);
        assert(after.last() == all@[i as int]@);
        let ghost old_views = pane_views(out@);
        match parse_pane_line(all[i].as_slice()) {
            Some(p) => {
                out.push(p);
                assert(pane_views(out@) =~= old_views.push(p@));
            },
            None => {},
        }
        i += 1;
    }
    assert(rows(all@).subrange(0, all@.len() as int) =~= rows(all@));
    out
}

/// The cursor that a `cursor_x<TAB>cursor_y` reply gives; a number that is
/// missing or unreadable counts as 0.
pub open spec fn cursor_of(output: Seq<char>) -> TmuxPaneCursor {
    let parts = fields(trim(output), '\t');
    TmuxPaneCursor {
        col: number_or_zero(parts[0], 0, 0xFFFF) as u16,
        row: if parts.len() > 1 {
            number_or_zero(parts[1], 0, 0xFFFF) as u16
        } else {
            0
        },
    }
}

pub fn parse_pane_cursor(output: &str) -> (r: TmuxPaneCursor)
    ensures
        r == cursor_of(output@),
{
    let chars = chars_of(output);
    let parts = split_on(trim_slice(chars.as_slice()), '\t');
    assert(forall|i: int| 0 <= i < parts.len() ==> rows(parts@)[i] == parts@[i]@);
    let col = parse_u16_or_zero(parts[0].as_slice());
    let row = if parts.len() > 1 {
        parse_u16_or_zero(parts[1].as_slice())
    } else {
        0
    };
    TmuxPaneCursor { col, row }
}

/// A session as a session listing names it: its name, and when it was
/// created, in milliseconds.
#[derive(Debug, Clone, PartialEq, Eq)]
pub struct ListedSession {
    pub id: String,
    pub created_at: i64,
}

pub struct ListedView {
    pub id: Seq<char>,
    pub created_at: i64,
}

impl View for ListedSession {
    type V = ListedView;

    open spec fn view(&self) -> ListedView {
        ListedView { id: self.id@, created_at: self.created_at }
    }
}

/// Seconds as milliseconds; 0 for a time that is not positive. The product
/// is taken in 64 bits.
pub open spec fn created_millis(seconds: i64) -> i64 {
    if seconds > 0 {
        seconds.wrapping_mul(1000)
    } else {
        0
    }
}

/// The session that one line of a session listing names: its trimmed first
/// field, and its second as the time of creation. A line whose first field
/// is blank names none.
pub open spec fn session_of(line: Seq<char>) -> Option<ListedView> {
    let parts = fields(line, '\t');
    let id = trim(parts[0]);
    if id.len() == 0 {
        None
    } else {
        let seconds = if parts.len() > 1 {
            number_or_zero(trim(parts[1]), i64::MIN + 1, i64::MAX as int) as i64
        } else {
            0
        };
        Some(ListedView { id, created_at: created_millis(seconds) })
    }
}

pub open spec fn sessions_of(rows: Seq<Seq<char>>) -> Seq<ListedView>
    decreases rows.len(),
{
    if rows.len() == 0 {
        seq![]
    } else {
        match session_of(rows.last()) {
            Some(s) => sessions_of(rows.drop_last()).push(s),
            None => sessions_of(rows.drop_last()),
        }
    }
}

pub open spec fn listed_views(v: Seq<ListedSession>) -> Seq<ListedView> {
    Seq::new(v.len(), |i: int| v[i]@)
}

pub fn parse_session_line(line: &[char]) -> (r: Option<ListedSession>)
    ensures
        match r {
            Some(s) => session_of(line@) == Some(s@),
            None => session_of(line@) is None,
        },
{
    let parts = split_on(line, '\t');
    assert(forall|i: int| 0 <= i < parts.len() ==> rows(parts@)[i] == parts@[i]@);
    let id = trim_slice(parts[0].as_slice());
    if id.len() == 0 {
        return None;
    }
    let seconds: i64 = if parts.len() > 1 {
        match parse_decimal(trim_slice(parts[1].as_slice()), i64::MIN + 1, i64::MAX) {
            Some(v) => v,
            None => 0,
        }
    } else {
        0
    };
    let created_at = if seconds > 0 {
        seconds.wrapping_mul(1000)
    } else {
        0
    };
    Some(ListedSession { id: string_of(id), created_at })
}

/// The sessions that a session listing names, in the order of its lines.
pub fn parse_session_list(output: &str) -> (r: Vec<ListedSession>)
    ensures
        listed_views(r@) == sessions_of(lines(output@)),
{
    let chars = chars_of(output);
    let all = split_lines(chars.as_slice());
    let mut out: Vec<ListedSession> = Vec::new();
    let mut i: usize = 0;
    while i < all.len()
        invariant
            i <= all.len(),
            listed_views(out@) == sessions_of(rows(all@).subrange(0, i as int)),
        decreases all.len() - i,
    {
        let ghost before = rows(all@).subrange(0, i as int);
        let ghost after = rows(all@).subrange(0, i + 1);
        assert(after.drop_last() =~= before);
        assert(after.last() == all@[i as int]@);
        let ghost old_views = listed_views(out@);
        match parse_session_line(all[i].as_slice()) {
            Some(s) => {
                out.push(s);
                assert(listed_views(out@) =~= old_views.push(s@));
            },
            None => {},
        }
        i += 1;
    }
    assert(rows(all@).subrange(0, all@.len() as int) =~= rows(all@));
    out
}

} // verus!
