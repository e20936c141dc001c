//! The merge request detail screen: tabs, keys, the description and the diff.
use vstd::prelude::*;

use crate::gitlab::types::{FileDiff, MergeRequest, Pipeline};
use crate::style::Tone;
use crate::text::{
    chars_of, lines, lines_of, push_str, split_char, split_on, str_eq, string_of, string_of_range,
};
use crate::tui::app::{App, AppCommand, AppView};
use crate::tui::keys::{Key, KeyInput};

verus! {

/// A string holding `s`.
fn owned(s: &str) -> (r: String)
    ensures
        r@ == s@,
{
    let mut r = String::new();
    push_str(&mut r, s);
    r
}

/// The tabs of the detail screen.
#[derive(Clone, Copy, Debug, PartialEq, Eq, Structural)]
pub enum DetailTab {
    Description,
    Diff,
}

impl DetailTab {
    /// The tab after this one (there are two, so the other one).
    pub fn next(self) -> (t: DetailTab)
        ensures
            t == self.spec_next(),
    {
        match self {
            DetailTab::Description => DetailTab::Diff,
            DetailTab::Diff => DetailTab::Description,
        }
    }

    /// The tab before this one (the other one).
    pub fn prev(self) -> (t: DetailTab)
        ensures
            t == self.spec_prev(),
    {
        match self {
            DetailTab::Description => DetailTab::Diff,
            DetailTab::Diff => DetailTab::Description,
        }
    }

    /// The tab's title.
    pub fn label(self) -> (r: &'static str)
        ensures
            r@ == (if self == DetailTab::Description { "Description"@ } else { "Diff"@ }),
    {
        match self {
            DetailTab::Description => "Description",
            DetailTab::Diff => "Diff",
        }
    }
}

/// The detail screen's own state: the tab shown and how far it is scrolled.
#[derive(Clone, Copy, Debug, PartialEq, Eq, Structural)]
pub struct DetailState {
    pub tab: DetailTab,
    pub scroll: u16,
}

impl DetailState {
    /// The description tab, at the top.
    pub fn new() -> (r: DetailState)
        ensures
            r == (DetailState { tab: DetailTab::Description, scroll: 0 }),
    {
        DetailState { tab: DetailTab::Description, scroll: 0 }
    }

    /// Back to the description tab, at the top, for a newly opened merge request.
    pub fn reset_for_mr(&mut self, _mr: &MergeRequest)
        ensures
            *final(self) == (DetailState { tab: DetailTab::Description, scroll: 0 }),
    {
        self.tab = DetailTab::Description;
        self.scroll = 0;
    }
}

/// The number of screen lines a file takes in the diff view: its header, its
/// lines (their count taken modulo 65536, as a `u16` holds it) and a blank line.
pub open spec fn file_span(f: FileDiff) -> int {
    2 + (lines_of(f.diff@).len() as int % 65536)
}

/// The number of screen lines the files take together.
pub open spec fn files_span(files: Seq<FileDiff>) -> int
    decreases files.len(),
{
    if files.len() == 0 {
        0
    } else {
        files_span(files.drop_last()) + file_span(files.last())
    }
}

proof fn lemma_files_span_monotone(files: Seq<FileDiff>, i: int)
    requires
        0 <= i <= files.len(),
    ensures
        files_span(files.take(i)) <= files_span(files),
    decreases files.len() - i,
{
    if i < files.len() {
        lemma_files_span_monotone(files, i + 1);
        assert(files.take(i + 1).drop_last() =~= files.take(i));
    } else {
        assert(files.take(i) =~= files);
    }
}

/// Line number (0-based) where each file's diff starts in the flat line list.
pub fn file_line_offsets(diff: &[FileDiff]) -> (r: Vec<u16>)
    requires
        files_span(diff@) <= u16::MAX,
    ensures
        r@.len() == diff@.len(),
        forall|i: int| 0 <= i < diff@.len() ==> #[trigger] r@[i] == files_span(diff@.take(i)),
{
    let mut offsets: Vec<u16> = Vec::new();
    let mut line: u16 = 0;
    let mut i: usize = 0;
    while i < diff.len()
        invariant
            i <= diff@.len(),
            files_span(diff@) <= u16::MAX,
            line == files_span(diff@.take(i as int)),
            offsets@.len() == i,
            forall|k: int| 0 <= k < i ==> #[trigger] offsets@[k] == files_span(diff@.take(k)),
        decreases diff.len() - i,
    {
        proof {
            assert(diff@.take(i + 1).drop_last() =~= diff@.take(i as int));
            lemma_files_span_monotone(diff@, i + 1);
        }
        offsets.push(line);
        line = line + 1;
        let count = crate::text::line_count(diff[i].diff.as_str());
        let c = (count % 65536) as u16;
        line = line + c;
        line = line + 1;
        i = i + 1;
    }
    offsets
}

/// Whether the diff's lines, as the diff view counts them, fit in a `u16`.
pub fn diff_fits(diff: &[FileDiff]) -> (r: bool)
    ensures
        r == (files_span(diff@) <= u16::MAX),
{
    let mut total: u64 = 0;
    let mut i: usize = 0;
    while i < diff.len()
        invariant
            i <= diff@.len(),
            total == files_span(diff@.take(i as int)),
            total <= u16::MAX,
        decreases diff.len() - i,
    {
        proof {
            assert(diff@.take(i + 1).drop_last() =~= diff@.take(i as int));
        }
        let count = crate::text::line_count(diff[i].diff.as_str());
        let c = (count % 65536) as u64;
        total = total + 2 + c;
        if total > 65535 {
            proof {
                lemma_files_span_monotone(diff@, i + 1);
            }
            return false;
        }
        i = i + 1;
    }
    assert(diff@.take(i as int) =~= diff@);
    true
}

/// The last index whose offset is at most `scroll`, or `None`.
pub open spec fn last_at_most(offsets: Seq<u16>, scroll: u16) -> Option<int>
    decreases offsets.len(),
{
    if offsets.len() == 0 {
        None
    } else if offsets.last() <= scroll {
        Some(offsets.len() - 1)
    } else {
        last_at_most(offsets.drop_last(), scroll)
    }
}

/// The file the scroll position is in: the last one starting at or above it,
/// else the first.
pub open spec fn file_at_scroll(offsets: Seq<u16>, scroll: u16) -> int {
    match last_at_most(offsets, scroll) {
        Some(i) => i,
        None => 0,
    }
}

proof fn lemma_last_at_most_bound(offsets: Seq<u16>, scroll: u16)
    ensures
        last_at_most(offsets, scroll) matches Some(i) ==> 0 <= i < offsets.len(),
    decreases offsets.len(),
{
    if offsets.len() > 0 {
        lemma_last_at_most_bound(offsets.drop_last(), scroll);
    }
}

/// Which file index the current scroll position is within.
pub fn file_from_scroll(offsets: &[u16], scroll: u16) -> (r: usize)
    ensures
        r == file_at_scroll(offsets@, scroll),
{
    let mut i = offsets.len();
    assert(offsets@.take(offsets@.len() as int) =~= offsets@);
    while i > 0
        invariant
            i <= offsets@.len(),
            last_at_most(offsets@, scroll) == last_at_most(offsets@.take(i as int), scroll),
        decreases i,
    {
        assert(offsets@.take(i as int).drop_last() =~= offsets@.take(i - 1));
        if offsets[i - 1] <= scroll {
            return i - 1;
        }
        i = i - 1;
    }
    0
}

/// What the path column shows of a path in `max` columns (one per
/// character): nothing for no room, the path where it fits, else `…/` and the
/// file name where that fits, else `…` and the last `max - 1` characters of
/// the path.
pub open spec fn truncated_path(path: Seq<char>, max: nat) -> Seq<char> {
    if max == 0 {
        seq![]
    } else if path.len() <= max {
        path
    } else {
        let e = "…/"@ + split_on(path, '/').last();
        if e.len() <= max {
            e
        } else {
            "…"@ + path.skip(path.len() - (max - 1))
        }
    }
}

/// A cut path never takes more than `max` columns, so it fits the file list
/// it is cut for.
pub proof fn lemma_truncated_fits(path: Seq<char>, max: nat)
    ensures
        truncated_path(path, max).len() <= max,
{
    reveal_strlit("…/");
    reveal_strlit("…");
}

/// Show just the filename if the full path is too long, with a `…/` prefix.
pub fn truncate_path(path: &str, max_width: usize) -> (r: String)
    ensures
        r@ == truncated_path(path@, max_width as nat),
{
    if max_width == 0 {
        return String::new();
    }
    let v = chars_of(path);
    if v.len() <= max_width {
        return string_of(&v);
    }
    let pieces = split_char(path, '/');
    let mut e = owned("…/");
    assert(pieces@.map_values(|x: String| x@).len() == pieces@.len());
    push_str(&mut e, pieces[pieces.len() - 1].as_str());
    assert(pieces@.map_values(|x: String| x@).last() == pieces@.last()@);
    let ev = chars_of(e.as_str());
    if ev.len() <= max_width {
        return e;
    }
    let start = v.len() - (max_width - 1);
    let mut r = owned("…");
    let tail = string_of_range(&v, start, v.len());
    assert(v@.subrange(start as int, v@.len() as int) =~= v@.skip(start as int));
    push_str(&mut r, tail.as_str());
    r
}

/// The status shown instead of the merge status while a pipeline is not green.
pub open spec fn pipeline_override(status: Seq<char>) -> Option<(Seq<char>, Tone)> {
    if status == "failed"@ {
        Some(("Build Failed"@, Tone::Red))
    } else if status == "running"@ {
        Some(("Build Running"@, Tone::LightBlue))
    } else if status == "pending"@ || status == "created"@ || status == "waiting_for_resource"@
        || status == "preparing"@ {
        Some(("Build Pending"@, Tone::Yellow))
    } else {
        None
    }
}

/// The pipeline status shown in place of the merge status, if any.
pub fn pipeline_status_override(pipeline: Option<&Pipeline>) -> (r: Option<(String, Tone)>)
    ensures
        match pipeline {
            None => r is None,
            Some(p) => match pipeline_override(p.status@) {
                None => r is None,
                Some(o) => r matches Some(x) && x.0@ == o.0 && x.1 == o.1,
            },
        },
{
    let p = match pipeline {
        Some(p) => p,
        None => return None,
    };
    let s = p.status.as_str();
    if str_eq(s, "failed") {
        Some((owned("Build Failed"), Tone::Red))
    } else if str_eq(s, "running") {
        Some((owned("Build Running"), Tone::LightBlue))
    } else if str_eq(s, "pending") || str_eq(s, "created") || str_eq(s, "waiting_for_resource")
        || str_eq(s, "preparing") {
        Some((owned("Build Pending"), Tone::Yellow))
    } else {
        None
    }
}

} // verus!

verus! {

/// The scroll position after a scroll key, or `None` for other keys.
pub open spec fn scrolled(scroll: u16, key: KeyInput) -> Option<int> {
    match key.key {
        Key::Up | Key::Char('k') => Some(if scroll >= 1 { scroll - 1 } else { 0 }),
        Key::Down | Key::Char('j') => Some(scroll + 1),
        Key::Char('u') if key.ctrl => Some(if scroll >= 10 { scroll - 10 } else { 0 }),
        Key::Char('d') if key.ctrl => Some(scroll + 10),
        Key::PageUp => Some(if scroll >= 20 { scroll - 20 } else { 0 }),
        Key::PageDown => Some(scroll + 20),
        _ => None,
    }
}

/// What a key asks of the state so that no `u16` overflows: scrolling down
/// stays below 65536, and the diff's lines fit in a `u16` when jumping between files.
pub open spec fn detail_key_ok(a: App, s: DetailState, key: KeyInput) -> bool {
    &&& (scrolled(s.scroll, key) matches Some(n) ==> n <= u16::MAX)
    &&& ((key.key == Key::Tab || key.key == Key::BackTab) && s.tab == DetailTab::Diff
        && a.current_diff@.len() > 0 ==> files_span(a.current_diff@) <= u16::MAX)
}

/// Whether a key keeps the detail screen's counters within a `u16`.
pub fn detail_key_fits(app: &App, state: &DetailState, key: KeyInput) -> (r: bool)
    ensures
        r == detail_key_ok(*app, *state, key),
{
    let step: u16 = match key.key {
        Key::Down | Key::Char('j') => 1,
        Key::Char('d') if key.ctrl => 10,
        Key::PageDown => 20,
        _ => 0,
    };
    if state.scroll > u16::MAX - step {
        return false;
    }
    if (key.key == Key::Tab || key.key == Key::BackTab) && state.tab == DetailTab::Diff
        && app.current_diff.len() > 0 {
        return diff_fits(app.current_diff.as_slice());
    }
    true
}

/// The state after the diff tab asked for its diff: fetched when it is the
/// tab shown, has no diff, is not loading one and a merge request is open.
pub open spec fn auto_load(a: App, s: DetailState, b: App, cmds: Seq<AppCommand>) -> bool {
    if s.tab == DetailTab::Diff && a.current_diff@.len() == 0 && !a.diff_loading
        && a.current_mr is Some && a.connected {
        let m = a.current_mr->0;
        &&& b == App { diff_loading: true, current_diff: b.current_diff, ..a }
        &&& b.current_diff@.len() == 0
        &&& cmds == seq![AppCommand::LoadDiff(m.project_id, m.iid)]
    } else {
        b == a && cmds == Seq::<AppCommand>::empty()
    }
}

/// The state and commands after a key on the detail screen.
pub open spec fn detail_key_effect(
    a: App,
    s: DetailState,
    key: KeyInput,
    b: App,
    t: DetailState,
    cmds: Seq<AppCommand>,
) -> bool {
    match key.key {
        Key::Esc | Key::Backspace => {
            &&& b == App {
                view: AppView::MrList,
                current_mr: None,
                current_diff: b.current_diff,
                error: None,
                ..a
            }
            &&& b.current_diff@.len() == 0
            &&& t == DetailState { scroll: 0, ..s }
            &&& cmds == Seq::<AppCommand>::empty()
        },
        Key::Char('m') => {
            &&& t == s
            &&& match a.current_mr {
                None => b == a && cmds == Seq::<AppCommand>::empty(),
                Some(m) => if m.detailed_merge_status@ == "mergeable"@ {
                    if a.connected {
                        b == a && cmds == seq![AppCommand::Merge(m.project_id, m.iid)]
                    } else {
                        b.error matches Some(e) && e@ == "Not connected"@ && b == App { error: b.error, ..a } && cmds
                            == Seq::<AppCommand>::empty()
                    }
                } else {
                    b.error matches Some(e) && e@ == "Cannot merge: "@ + m.spec_status_label() && b == App {
                        error: b.error,
                        ..a
                    } && cmds == Seq::<AppCommand>::empty()
                },
            }
        },
        Key::Char('o') => t == s && b == a && cmds == (if a.current_mr is Some {
            seq![AppCommand::OpenMedia]
        } else {
            Seq::<AppCommand>::empty()
        }),
        Key::Char('a') => {
            &&& t == s
            &&& match a.current_mr {
                None => b == a && cmds == Seq::<AppCommand>::empty(),
                Some(m) => if a.connected {
                    b == a && cmds == seq![AppCommand::Approve(m.project_id, m.iid)]
                } else {
                    b.error matches Some(e) && e@ == "Not connected"@ && b == App { error: b.error, ..a } && cmds
                        == Seq::<AppCommand>::empty()
                },
            }
        },
        Key::Char('b') => t == s && b == a && cmds == (if a.current_mr is Some {
            seq![AppCommand::OpenInBrowser]
        } else {
            Seq::<AppCommand>::empty()
        }),
        Key::Tab if s.tab == DetailTab::Diff => {
            &&& b == a
            &&& cmds == Seq::<AppCommand>::empty()
            &&& if a.current_diff@.len() > 0 {
                let cur = file_at_scroll(
                    Seq::new(a.current_diff@.len(), |i: int| files_span(a.current_diff@.take(i)) as u16),
                    s.scroll,
                );
                let next = if cur + 1 < a.current_diff@.len() - 1 {
                    cur + 1
                } else {
                    a.current_diff@.len() - 1
                };
                t == DetailState { scroll: files_span(a.current_diff@.take(next)) as u16, ..s }
            } else {
                t == s
            }
        },
        Key::BackTab if s.tab == DetailTab::Diff => {
            &&& b == a
            &&& cmds == Seq::<AppCommand>::empty()
            &&& if a.current_diff@.len() > 0 {
                let cur = file_at_scroll(
                    Seq::new(a.current_diff@.len(), |i: int| files_span(a.current_diff@.take(i)) as u16),
                    s.scroll,
                );
                let prev = if cur >= 1 { cur - 1 } else { 0 };
                t == DetailState { scroll: files_span(a.current_diff@.take(prev)) as u16, ..s }
            } else {
                t == s
            }
        },
        _ => {
            let t1 = match key.key {
                Key::Char(']') => DetailState { tab: s.tab.spec_next(), scroll: 0 },
                Key::Char('[') => DetailState { tab: s.tab.spec_next(), scroll: 0 },
                _ => match scrolled(s.scroll, key) {
                    Some(n) => DetailState { scroll: n as u16, ..s },
                    None => s,
                },
            };
            t == t1 && auto_load(a, t1, b, cmds)
        },
    }
}

impl DetailTab {
    /// The tab after this one.
    pub open spec fn spec_next(self) -> DetailTab {
        if self == DetailTab::Description {
            DetailTab::Diff
        } else {
            DetailTab::Description
        }
    }

    /// The tab before this one.
    pub open spec fn spec_prev(self) -> DetailTab {
        if self == DetailTab::Description {
            DetailTab::Diff
        } else {
            DetailTab::Description
        }
    }
}

/// Going to the next tab and back to the previous one (or back, then on)
/// shows the tab one started from.
pub proof fn lemma_tab_round_trip(t: DetailTab)
    ensures
        t.spec_next().spec_prev() == t,
        t.spec_prev().spec_next() == t,
{
}

/// Within offsets that increase from file to file, the last one at or
/// above a scroll position that is itself an offset is that offset's file.
proof fn lemma_last_at_most_offset(offsets: Seq<u16>, i: int, n: int)
    requires
        0 <= i < n <= offsets.len(),
        forall|a: int, b: int| 0 <= a < b < offsets.len() ==> offsets[a] < offsets[b],
    ensures
        last_at_most(offsets.take(n), offsets[i]) == Some(i),
    decreases n - i,
{
    let t = offsets.take(n);
    assert(t.last() == offsets[n - 1]);
    if n - 1 > i {
        assert(t.drop_last() =~= offsets.take(n - 1));
        lemma_last_at_most_offset(offsets, i, n - 1);
    }
}

/// Scrolling to where file `i` starts makes file `i` the current one, for
/// offsets that increase from file to file (as those of a diff do).
pub proof fn lemma_scroll_to_file(offsets: Seq<u16>, i: int)
    requires
        0 <= i < offsets.len(),
        forall|a: int, b: int| 0 <= a < b < offsets.len() ==> offsets[a] < offsets[b],
    ensures
        file_at_scroll(offsets, offsets[i]) == i,
{
    lemma_last_at_most_offset(offsets, i, offsets.len() as int);
    assert(offsets.take(offsets.len() as int) =~= offsets);
}

proof fn lemma_files_span_grows(files: Seq<FileDiff>, a: int, b: int)
    requires
        0 <= a < b <= files.len(),
    ensures
        files_span(files.take(a)) + 2 <= files_span(files.take(b)),
    decreases b - a,
{
    assert(files.take(b).drop_last() =~= files.take(b - 1));
    if b - 1 > a {
        lemma_files_span_grows(files, a, b - 1);
    }
}

/// The offsets of a diff whose lines fit in a `u16` increase from file to
/// file: each file takes at least its header and its blank line.
pub proof fn lemma_offsets_increase(files: Seq<FileDiff>)
    requires
        files_span(files) <= u16::MAX,
    ensures
        forall|a: int, b: int|
            0 <= a < b < files.len() ==> (files_span(#[trigger] files.take(a)) as u16) < (files_span(
                #[trigger] files.take(b),
            ) as u16),
{
    assert forall|a: int, b: int| 0 <= a < b < files.len() implies (files_span(
        #[trigger] files.take(a),
    ) as u16) < (files_span(#[trigger] files.take(b)) as u16) by {
        lemma_files_span_grows(files, a, b);
        lemma_files_span_monotone(files, b);
        lemma_files_span_nonneg(files.take(a));
    }
}

proof fn lemma_files_span_nonneg(files: Seq<FileDiff>)
    ensures
        files_span(files) >= 0,
    decreases files.len(),
{
    if files.len() > 0 {
        lemma_files_span_nonneg(files.drop_last());
    }
}

/// A key on the detail screen.
pub fn handle_key(app: &mut App, state: &mut DetailState, key: KeyInput) -> (cmds: Vec<AppCommand>)
    requires
        detail_key_ok(*old(app), *old(state), key),
    ensures
        detail_key_effect(*old(app), *old(state), key, *final(app), *final(state), cmds@),
{
    let mut cmds: Vec<AppCommand> = Vec::new();
    let on_diff: bool = state.tab == DetailTab::Diff;
    match key.key {
        Key::Esc | Key::Backspace => {
            app.view = AppView::MrList;
            app.current_mr = None;
            app.current_diff = Vec::new();
            app.error = None;
            state.scroll = 0;
            return cmds;
        },
        Key::Char(']') => {
            state.tab = state.tab.next();
            state.scroll = 0;
        },
        Key::Char('[') => {
            state.tab = state.tab.prev();
            state.scroll = 0;
        },
        Key::Up | Key::Char('k') => {
            state.scroll = state.scroll.saturating_sub(1);
        },
        Key::Down | Key::Char('j') => {
            state.scroll = state.scroll + 1;
        },
        Key::Char('u') if key.ctrl => {
            state.scroll = state.scroll.saturating_sub(10);
        },
        Key::Char('d') if key.ctrl => {
            state.scroll = state.scroll + 10;
        },
        Key::PageUp => {
            state.scroll = state.scroll.saturating_sub(20);
        },
        Key::PageDown => {
            state.scroll = state.scroll + 20;
        },
        Key::Char('m') => {
            let target = match &app.current_mr {
                Some(mr) => Some((mr.is_mergeable(), mr.project_id, mr.iid, mr.status_label())),
                None => None,
            };
            if let Some((mergeable, project_id, iid, label)) = target {
                if mergeable {
                    if let Some(c) = app.trigger_merge(project_id, iid) {
                        cmds.push(c);
                    }
                } else {
                    let mut e = owned("Cannot merge: ");
                    push_str(&mut e, label);
                    app.error = Some(e);
                }
            }
            proof {
                assert(cmds@ =~= (match old(app).current_mr {
                    Some(m) => if m.detailed_merge_status@ == "mergeable"@ && old(app).connected {
                        seq![AppCommand::Merge(m.project_id, m.iid)]
                    } else {
                        Seq::<AppCommand>::empty()
                    },
                    None => Seq::<AppCommand>::empty(),
                }));
            }
            return cmds;
        },
        Key::Char('o') => {
            if app.current_mr.is_some() {
                cmds.push(AppCommand::OpenMedia);
            }
            assert(cmds@ =~= (if old(app).current_mr is Some {
                seq![AppCommand::OpenMedia]
            } else {
                Seq::<AppCommand>::empty()
            }));
            return cmds;
        },
        Key::Char('a') => {
            let target = match &app.current_mr {
                Some(mr) => Some((mr.project_id, mr.iid)),
                None => None,
            };
            if let Some((project_id, iid)) = target {
                if let Some(c) = app.trigger_approve(project_id, iid) {
                    cmds.push(c);
                }
            }
            proof {
                assert(cmds@ =~= (match old(app).current_mr {
                    Some(m) => if old(app).connected {
                        seq![AppCommand::Approve(m.project_id, m.iid)]
                    } else {
                        Seq::<AppCommand>::empty()
                    },
                    None => Seq::<AppCommand>::empty(),
                }));
            }
            return cmds;
        },
        Key::Char('b') => {
            if app.current_mr.is_some() {
                cmds.push(AppCommand::OpenInBrowser);
            }
            assert(cmds@ =~= (if old(app).current_mr is Some {
                seq![AppCommand::OpenInBrowser]
            } else {
                Seq::<AppCommand>::empty()
            }));
            return cmds;
        },
        Key::Tab if on_diff => {
            if app.current_diff.len() > 0 {
                let offsets = file_line_offsets(app.current_diff.as_slice());
                let cur = file_from_scroll(offsets.as_slice(), state.scroll);
                let n = app.current_diff.len();
                proof {
                    lemma_last_at_most_bound(offsets@, state.scroll);
                    assert(offsets@ =~= Seq::new(
                        app.current_diff@.len(),
                        |i: int| files_span(app.current_diff@.take(i)) as u16,
                    ));
                }
                let next = if cur + 1 < n - 1 {
                    cur + 1
                } else {
                    n - 1
                };
                state.scroll = offsets[next];
            }
            return cmds;
        },
        Key::BackTab if on_diff => {
            if app.current_diff.len() > 0 {
                let offsets = file_line_offsets(app.current_diff.as_slice());
                let cur = file_from_scroll(offsets.as_slice(), state.scroll);
                proof {
                    lemma_last_at_most_bound(offsets@, state.scroll);
                    assert(offsets@ =~= Seq::new(
                        app.current_diff@.len(),
                        |i: int| files_span(app.current_diff@.take(i)) as u16,
                    ));
                }
                let prev = if cur >= 1 {
                    cur - 1
                } else {
                    0
                };
                state.scroll = offsets[prev];
            }
            return cmds;
        },
        _ => {},
    }
    let ghost t1 = {
        let s0 = *old(state);
        match key.key {
            Key::Char(']') => DetailState { tab: s0.tab.spec_next(), scroll: 0 },
            Key::Char('[') => DetailState { tab: s0.tab.spec_next(), scroll: 0 },
            _ => match scrolled(s0.scroll, key) {
                Some(n) => DetailState { scroll: n as u16, ..s0 },
                None => s0,
            },
        }
    };
    assert(*state == t1);
    if state.tab == DetailTab::Diff && app.current_diff.len() == 0 && !app.diff_loading {
        let target = match &app.current_mr {
            Some(mr) => Some((mr.project_id, mr.iid)),
            None => None,
        };
        if let Some((project_id, iid)) = target {
            if let Some(c) = app.trigger_load_diff(project_id, iid) {
                cmds.push(c);
            }
        }
    }
    proof {
        let ghost m = old(app).current_mr;
        if state.tab == DetailTab::Diff && old(app).current_diff@.len() == 0 && !old(app).diff_loading
            && m is Some && old(app).connected {
            assert(cmds@ =~= seq![AppCommand::LoadDiff(m->0.project_id, m->0.iid)]);
        } else {
            assert(cmds@ =~= Seq::<AppCommand>::empty());
        }
    }
    assert(*state == t1);
    assert(has_resolved(state));
    cmds
}

/// On the diff tab, from the first line of a file that is not the last one,
/// Tab moves to the first line of the next file and Shift+Tab then comes back
/// to where it started, with nothing else changed.
pub proof fn lemma_tab_back_tab(
    a: App,
    s: DetailState,
    i: int,
    k1: KeyInput,
    b: App,
    t: DetailState,
    c1: Seq<AppCommand>,
    k2: KeyInput,
    c: App,
    u: DetailState,
    c2: Seq<AppCommand>,
)
    requires
        s.tab == DetailTab::Diff,
        0 <= i < a.current_diff@.len() - 1,
        files_span(a.current_diff@) <= u16::MAX,
        s.scroll == files_span(a.current_diff@.take(i)) as u16,
        k1.key == Key::Tab,
        k2.key == Key::BackTab,
        detail_key_effect(a, s, k1, b, t, c1),
        detail_key_effect(b, t, k2, c, u, c2),
    ensures
        t == (DetailState { scroll: files_span(a.current_diff@.take(i + 1)) as u16, ..s }),
        u == s,
        b == a,
        c == a,
        c1.len() == 0,
        c2.len() == 0,
{
    let files = a.current_diff@;
    let n = files.len();
    let offsets = Seq::new(n, |j: int| files_span(files.take(j)) as u16);
    lemma_offsets_increase(files);
    assert forall|x: int, y: int| 0 <= x < y < offsets.len() implies offsets[x] < offsets[y] by {
        assert(offsets[x] == files_span(files.take(x)) as u16);
        assert(offsets[y] == files_span(files.take(y)) as u16);
    }
    lemma_scroll_to_file(offsets, i);
    assert(offsets[i] == s.scroll);
    lemma_scroll_to_file(offsets, i + 1);
}

} // verus!
