//! The merge request list: its keys, its rows and its bars.
use vstd::prelude::*;

use crate::gitlab::types::{same_mr, MergeRequest};
use crate::style::{
    empty_line, fg, fg_bold, fg_style, plain_style, push_span, raw_span, span, StyledLine,
    StyledSpan, TextStyle, Tone,
};
use crate::text::{
    byte_len, decimal, has_infix, lowercase, words_of, decimal_string, push_decimal, push_str, str_eq, trim_start_matching_str,
    trim_start_seq,
};
use crate::tui::app::{
    lemma_visible_are_matches, mr_matches_query, token_matches, visible_spec, App, AppCommand, AppView,
};
use crate::tui::keys::{Key, KeyInput};
use crate::tui::area::{sat_sub, Area};
use crate::tui::views::help::byte_width;

verus! {

/// A string holding `s`.
fn owned(s: &str) -> (r: String)
    ensures
        r@ == s@,
{
    let mut r = String::new();
    push_str(&mut r, s);
    r
}

/// The state after a key typed into the search field.
pub open spec fn search_key_effect(a: App, key: KeyInput, b: App) -> bool {
    match key.key {
        Key::Esc => b == App {
            local_search_active: false,
            local_search: b.local_search,
            selected_row: 0,
            ..a
        } && b.local_search@.len() == 0,
        Key::Enter => b == App { local_search_active: false, ..a },
        Key::Backspace => b == App { local_search: b.local_search, selected_row: 0, ..a } && b.local_search@
            == (if a.local_search@.len() > 0 {
            a.local_search@.drop_last()
        } else {
            a.local_search@
        }),
        Key::Char(c) => b == App { local_search: b.local_search, selected_row: 0, ..a }
            && b.local_search@ == a.local_search@.push(c),
        _ => b == a,
    }
}

/// Removes the last character of a string (`String::pop`).
#[verifier::external_body]
fn pop_char(s: &mut String) -> (r: Option<char>)
    ensures
        old(s)@.len() > 0 ==> r == Some(old(s)@.last()) && final(s)@ == old(s)@.drop_last(),
        old(s)@.len() == 0 ==> r is None && final(s)@ == old(s)@,
{
    s.pop()
}

/// A key typed while searching.
pub fn handle_search_key(app: &mut App, key: KeyInput)
    ensures
        search_key_effect(*old(app), key, *final(app)),
{
    match key.key {
        Key::Esc => {
            app.local_search_active = false;
            app.local_search = String::new();
            app.selected_row = 0;
        },
        Key::Enter => {
            app.local_search_active = false;
        },
        Key::Backspace => {
            pop_char(&mut app.local_search);
            app.selected_row = 0;
        },
        Key::Char(c) => {
            crate::text::push_char(&mut app.local_search, c);
            app.selected_row = 0;
        },
        _ => {},
    }
}

/// The state and commands after a key in the list (not searching).
pub open spec fn list_key_effect(a: App, key: KeyInput, b: App, cmds: Seq<AppCommand>) -> bool {
    let visible = visible_spec(a.mrs@, a.local_search@);
    if a.local_search_active {
        search_key_effect(a, key, b) && cmds == Seq::<AppCommand>::empty()
    } else {
        match key.key {
            Key::Up | Key::Char('k') => b == App {
                selected_row: if a.selected_row > 0 {
                    (a.selected_row - 1) as usize
                } else {
                    a.selected_row
                },
                ..a
            } && cmds == Seq::<AppCommand>::empty(),
            Key::Down | Key::Char('j') => {
                let n = visible.len();
                let max = if n > 0 { n - 1 } else { 0 };
                b == App {
                    selected_row: if a.selected_row < max {
                        (a.selected_row + 1) as usize
                    } else {
                        a.selected_row
                    },
                    ..a
                } && cmds == Seq::<AppCommand>::empty()
            },
            Key::Enter => if a.selected_row < visible.len() {
                let m = visible[a.selected_row as int];
                &&& b.current_mr matches Some(x) && same_mr(x, m)
                &&& b.current_diff@.len() == 0
                &&& b.current_notes@.len() == 0
                &&& b == App {
                    current_mr: b.current_mr,
                    current_diff: b.current_diff,
                    current_notes: b.current_notes,
                    view: AppView::MrDetail,
                    ..a
                }
                &&& cmds == (if a.connected {
                    seq![AppCommand::LoadNotes(m.project_id, m.iid)]
                } else {
                    Seq::<AppCommand>::empty()
                })
            } else {
                b == a && cmds == Seq::<AppCommand>::empty()
            },
            Key::Char('r') => {
                &&& b == (if a.connected {
                    App { loading: true, error: None, ..a }
                } else {
                    a
                })
                &&& cmds == (if a.connected {
                    seq![AppCommand::LoadMrs]
                } else {
                    Seq::<AppCommand>::empty()
                })
            },
            Key::Char('s') => b == App { view: AppView::Settings, error: None, ..a } && cmds
                == Seq::<AppCommand>::empty(),
            Key::Char('/') => b == App {
                local_search_active: true,
                local_search: b.local_search,
                selected_row: 0,
                ..a
            } && b.local_search@.len() == 0 && cmds == Seq::<AppCommand>::empty(),
            _ => b == a && cmds == Seq::<AppCommand>::empty(),
        }
    }
}

/// The cursor is on a visible row, or at the top when no row is visible.
pub open spec fn cursor_on_row(a: App) -> bool {
    let n = visible_spec(a.mrs@, a.local_search@).len();
    a.selected_row <= (if n > 0 { n - 1 } else { 0 })
}

/// Keys in the list keep the cursor on a visible row (or at the top when
/// no row is visible).
pub proof fn lemma_list_keys_keep_cursor(a: App, key: KeyInput, b: App, cmds: Seq<AppCommand>)
    requires
        list_key_effect(a, key, b, cmds),
        cursor_on_row(a),
    ensures
        cursor_on_row(b),
{
}

/// A key in the merge request list.
pub fn handle_key(app: &mut App, key: KeyInput) -> (cmds: Vec<AppCommand>)
    ensures
        list_key_effect(*old(app), key, *final(app), cmds@),
{
    let mut cmds: Vec<AppCommand> = Vec::new();
    if app.local_search_active {
        handle_search_key(app, key);
        return cmds;
    }
    match key.key {
        Key::Up | Key::Char('k') => app.move_up(),
        Key::Down | Key::Char('j') => app.move_down(),
        Key::Enter => {
            let picked = match app.selected_mr() {
                Some(mr) => Some(mr.duplicate()),
                None => None,
            };
            if let Some(mr) = picked {
                let project_id = mr.project_id;
                let iid = mr.iid;
                app.current_mr = Some(mr);
                app.current_notes = Vec::new();
                app.current_diff = Vec::new();
                app.view = AppView::MrDetail;
                if let Some(c) = app.trigger_load_notes(project_id, iid) {
                    cmds.push(c);
                }
            }
        },
        Key::Char('r') => {
            if let Some(c) = app.trigger_load() {
                cmds.push(c);
            }
            assert(cmds@ =~= (if old(app).connected {
                seq![AppCommand::LoadMrs]
            } else {
                Seq::<AppCommand>::empty()
            }));
        },
        Key::Char('s') => {
            app.view = AppView::Settings;
            app.error = None;
        },
        Key::Char('/') => {
            app.local_search_active = true;
            app.local_search = String::new();
            app.selected_row = 0;
        },
        _ => {},
    }
    cmds
}

} // verus!

verus! {

/// FNV-1a over bytes.
pub open spec fn fnv1a(bytes: Seq<u8>) -> u64
    decreases bytes.len(),
{
    if bytes.len() == 0 {
        14695981039346656037u64
    } else {
        vstd::wrapping::u64_specs::wrapping_mul(
            fnv1a(bytes.drop_last()) ^ (bytes.last() as u64),
            1099511628211u64,
        )
    }
}

/// The sixteen label colours.
pub open spec fn palette(i: int) -> Tone {
    if i == 0 { Tone::Rgb(255, 127, 80) }
    else if i == 1 { Tone::Rgb(0, 206, 209) }
    else if i == 2 { Tone::Rgb(148, 103, 189) }
    else if i == 3 { Tone::Rgb(255, 165, 0) }
    else if i == 4 { Tone::Rgb(255, 105, 180) }
    else if i == 5 { Tone::Rgb(50, 205, 50) }
    else if i == 6 { Tone::Rgb(135, 206, 250) }
    else if i == 7 { Tone::Rgb(255, 215, 0) }
    else if i == 8 { Tone::Rgb(220, 20, 60) }
    else if i == 9 { Tone::Rgb(64, 224, 208) }
    else if i == 10 { Tone::Rgb(138, 43, 226) }
    else if i == 11 { Tone::Rgb(0, 255, 127) }
    else if i == 12 { Tone::Rgb(30, 144, 255) }
    else if i == 13 { Tone::Rgb(255, 20, 147) }
    else if i == 14 { Tone::Rgb(100, 221, 120) }
    else { Tone::Rgb(255, 160, 90) }
}

/// The colour of a label: the palette entry picked by the FNV-1a hash of its
/// UTF-8 bytes, modulo sixteen.
pub open spec fn label_tone(name: Seq<char>) -> Tone {
    palette((fnv1a(vstd::utf8::encode_utf8(name)) % 16) as int)
}

/// A label's colour depends on its name alone and is one of the sixteen
/// colours of the palette.
pub proof fn lemma_label_tone_in_palette(name: Seq<char>)
    ensures
        exists|i: int| 0 <= i < 16 && label_tone(name) == #[trigger] palette(i),
{
    let i = (fnv1a(vstd::utf8::encode_utf8(name)) % 16) as int;
    assert(label_tone(name) == palette(i));
}

fn palette_at(i: u64) -> (t: Tone)
    requires
        i < 16,
    ensures
        t == palette(i as int),
{
    if i == 0 { Tone::Rgb(255, 127, 80) }
    else if i == 1 { Tone::Rgb(0, 206, 209) }
    else if i == 2 { Tone::Rgb(148, 103, 189) }
    else if i == 3 { Tone::Rgb(255, 165, 0) }
    else if i == 4 { Tone::Rgb(255, 105, 180) }
    else if i == 5 { Tone::Rgb(50, 205, 50) }
    else if i == 6 { Tone::Rgb(135, 206, 250) }
    else if i == 7 { Tone::Rgb(255, 215, 0) }
    else if i == 8 { Tone::Rgb(220, 20, 60) }
    else if i == 9 { Tone::Rgb(64, 224, 208) }
    else if i == 10 { Tone::Rgb(138, 43, 226) }
    else if i == 11 { Tone::Rgb(0, 255, 127) }
    else if i == 12 { Tone::Rgb(30, 144, 255) }
    else if i == 13 { Tone::Rgb(255, 20, 147) }
    else if i == 14 { Tone::Rgb(100, 221, 120) }
    else { Tone::Rgb(255, 160, 90) }
}

/// Deterministic color for a label — same name always gets the same color.
pub fn label_color(name: &str) -> (t: Tone)
    ensures
        t == label_tone(name@),
{
    let bytes = name.as_bytes();
    let ghost bs = vstd::utf8::encode_utf8(name@);
    let mut h: u64 = 14695981039346656037;
    let mut i: usize = 0;
    while i < bytes.len()
        invariant
            i <= bytes@.len(),
            bytes@ == bs,
            h == fnv1a(bs.take(i as int)),
        decreases bytes.len() - i,
    {
        assert(bs.take(i + 1).drop_last() =~= bs.take(i as int));
        h = h ^ (bytes[i] as u64);
        h = h.wrapping_mul(1099511628211);
        i = i + 1;
    }
    assert(bs.take(i as int) =~= bs);
    palette_at(h % 16)
}

/// The spans of a label line: up to `max_shown` labels, each in brackets in its
/// colour and separated by a space, then ` +N` in dark gray for the rest.
pub open spec fn labels_spans(labels: Seq<Seq<char>>, max_shown: nat) -> Seq<(Seq<char>, TextStyle)> {
    let shown = if labels.len() < max_shown { labels.len() } else { max_shown };
    let parts = Seq::new(shown, |i: int| ("["@ + labels[i] + "]"@, fg_style(label_tone(labels[i]))));
    let spaced = spaced_labels(parts);
    if labels.len() > max_shown {
        spaced.push((" +"@ + decimal((labels.len() - max_shown) as nat), fg_style(Tone::DarkGray)))
    } else {
        spaced
    }
}

/// Spans with a plain single space between each two.
pub open spec fn spaced_labels(parts: Seq<(Seq<char>, TextStyle)>) -> Seq<(Seq<char>, TextStyle)>
    decreases parts.len(),
{
    if parts.len() == 0 {
        seq![]
    } else if parts.len() == 1 {
        parts
    } else {
        spaced_labels(parts.drop_last()).push((" "@, plain_style())).push(parts.last())
    }
}

/// Build a colored label line. `max_shown` caps how many labels are displayed before "+N".
pub fn labels_line(labels: &[String], max_shown: usize) -> (r: StyledLine)
    ensures
        r.deep_view() == labels_spans(labels@.map_values(|l: String| l@), max_shown as nat),
{
    let ghost lv = labels@.map_values(|l: String| l@);
    let mut line = empty_line();
    if labels.len() == 0 {
        assert(labels_spans(lv, max_shown as nat) =~= Seq::<(Seq<char>, TextStyle)>::empty());
        return line;
    }
    let shown = if labels.len() < max_shown { labels.len() } else { max_shown };
    let ghost parts = Seq::new(shown as nat, |i: int| ("["@ + lv[i] + "]"@, fg_style(label_tone(lv[i]))));
    let mut i: usize = 0;
    while i < shown
        invariant
            i <= shown,
            shown <= labels@.len(),
            lv == labels@.map_values(|l: String| l@),
            parts == Seq::new(shown as nat, |i: int| ("["@ + lv[i] + "]"@, fg_style(label_tone(lv[i])))),
            line.deep_view() == spaced_labels(parts.take(i as int)),
        decreases shown - i,
    {
        proof {
            assert(parts.take(i + 1).drop_last() =~= parts.take(i as int));
        }
        if i > 0 {
            push_span(&mut line, raw_span(" "));
        }
        let mut text = owned("[");
        push_str(&mut text, labels[i].as_str());
        push_str(&mut text, "]");
        let tone = label_color(labels[i].as_str());
        push_span(&mut line, StyledSpan { text, style: fg(tone) });
        proof {
            if i == 0 {
                assert(line.deep_view() =~= parts.take(1));
            }
        }
        i = i + 1;
    }
    assert(parts.take(i as int) =~= parts);
    if labels.len() > max_shown {
        let mut text = owned(" +");
        push_decimal(&mut text, (labels.len() - max_shown) as u64);
        push_span(&mut line, StyledSpan { text, style: fg(Tone::DarkGray) });
    }
    line
}

/// The tone named by a colour name; white for an unknown one.
pub open spec fn named_tone(name: Seq<char>) -> Tone {
    if name == "cyan"@ { Tone::Cyan }
    else if name == "green"@ { Tone::Green }
    else if name == "blue"@ { Tone::Blue }
    else if name == "magenta"@ { Tone::Magenta }
    else if name == "red"@ { Tone::Red }
    else if name == "yellow"@ { Tone::Yellow }
    else { Tone::White }
}

/// The colour named by `name`.
pub fn color_from_str(name: &str) -> (t: Tone)
    ensures
        t == named_tone(name@),
{
    if str_eq(name, "cyan") { Tone::Cyan }
    else if str_eq(name, "green") { Tone::Green }
    else if str_eq(name, "blue") { Tone::Blue }
    else if str_eq(name, "magenta") { Tone::Magenta }
    else if str_eq(name, "red") { Tone::Red }
    else if str_eq(name, "yellow") { Tone::Yellow }
    else { Tone::White }
}

/// The colour of the pipeline dot: green for success, red for failure, orange
/// while running, dark gray otherwise or without a pipeline.
pub open spec fn dot_tone(mr: MergeRequest) -> Tone {
    let p = if mr.head_pipeline is Some { mr.head_pipeline } else { mr.pipeline };
    match p {
        Some(p) => if p.status@ == "success"@ {
            Tone::Green
        } else if p.status@ == "failed"@ {
            Tone::Red
        } else if p.status@ == "running"@ {
            Tone::Rgb(255, 140, 0)
        } else {
            Tone::DarkGray
        },
        None => Tone::DarkGray,
    }
}

/// The colour of the pipeline dot of a row.
pub fn pipeline_dot_color(mr: &MergeRequest) -> (t: Tone)
    ensures
        t == dot_tone(*mr),
{
    match mr.any_pipeline() {
        Some(p) => {
            let s = p.status.as_str();
            if str_eq(s, "success") {
                Tone::Green
            } else if str_eq(s, "failed") {
                Tone::Red
            } else if str_eq(s, "running") {
                Tone::Rgb(255, 140, 0)
            } else {
                Tone::DarkGray
            }
        },
        None => Tone::DarkGray,
    }
}

/// The colour of a status label.
pub open spec fn status_tone(draft: bool, status: Seq<char>) -> Tone {
    if draft {
        Tone::DarkGray
    } else if status == "mergeable"@ {
        Tone::Green
    } else if status == "not_approved"@ {
        Tone::Yellow
    } else if status == "blocked_status"@ || status == "merge_request_blocked"@ || status
        == "discussions_not_resolved"@ {
        Tone::Red
    } else if status == "ci_still_running"@ {
        Tone::Yellow
    } else {
        Tone::White
    }
}

/// The colour of a merge request's status label.
pub fn status_color(mr: &MergeRequest) -> (t: Tone)
    ensures
        t == status_tone(mr.draft, mr.detailed_merge_status@),
{
    if mr.draft {
        return Tone::DarkGray;
    }
    let s = mr.detailed_merge_status.as_str();
    if str_eq(s, "mergeable") {
        Tone::Green
    } else if str_eq(s, "not_approved") {
        Tone::Yellow
    } else if str_eq(s, "blocked_status") || str_eq(s, "merge_request_blocked") || str_eq(
        s,
        "discussions_not_resolved",
    ) {
        Tone::Red
    } else if str_eq(s, "ci_still_running") {
        Tone::Yellow
    } else {
        Tone::White
    }
}

/// The spans of a hint bar: a space, then `[key] action` in dark gray for each
/// hint, two spaces apart.
pub open spec fn hint_spans(hints: Seq<(Seq<char>, Seq<char>)>) -> Seq<(Seq<char>, TextStyle)>
    decreases hints.len(),
{
    if hints.len() == 0 {
        seq![(" "@, plain_style())]
    } else {
        let rest = hint_spans(hints.drop_last());
        let h = ("["@ + hints.last().0 + "] "@ + hints.last().1, fg_style(Tone::DarkGray));
        if hints.len() == 1 {
            rest.push(h)
        } else {
            rest.push(("  "@, plain_style())).push(h)
        }
    }
}

/// A bar of `[key] action` hints.
pub fn hints_line(hints: &[(&str, &str)]) -> (r: StyledLine)
    ensures
        r.deep_view() == hint_spans(hints@.map_values(|h: (&str, &str)| (h.0@, h.1@))),
{
    let ghost hv = hints@.map_values(|h: (&str, &str)| (h.0@, h.1@));
    let mut line = empty_line();
    push_span(&mut line, raw_span(" "));
    let mut i: usize = 0;
    while i < hints.len()
        invariant
            i <= hints@.len(),
            hv == hints@.map_values(|h: (&str, &str)| (h.0@, h.1@)),
            line.deep_view() == hint_spans(hv.take(i as int)),
        decreases hints.len() - i,
    {
        assert(hv.take(i + 1).drop_last() =~= hv.take(i as int));
        if i > 0 {
            push_span(&mut line, raw_span("  "));
        }
        let (key, action) = hints[i];
        let mut text = owned("[");
        push_str(&mut text, key);
        push_str(&mut text, "] ");
        push_str(&mut text, action);
        push_span(&mut line, StyledSpan { text, style: fg(Tone::DarkGray) });
        i = i + 1;
    }
    assert(hv.take(i as int) =~= hv);
    line
}

} // verus!

verus! {

/// What a row of the list shows.
pub struct MrRow {
    /// The colour of the pipeline dot before the title.
    pub dot: Tone,
    pub title: String,
    /// Dark gray for a draft, white otherwise.
    pub title_tone: Tone,
    pub author: String,
    /// At most two labels, then `+N`.
    pub labels: StyledLine,
    /// The milestone title, empty without one.
    pub milestone: String,
    pub status: &'static str,
    pub status_tone: Tone,
}

/// The row of a merge request.
pub fn build_row(mr: &MergeRequest) -> (r: MrRow)
    ensures
        r.dot == dot_tone(*mr),
        r.title@ == mr.title@,
        r.title_tone == (if mr.draft { Tone::DarkGray } else { Tone::White }),
        r.author@ == mr.author.username@,
        r.labels.deep_view() == labels_spans(mr.labels@.map_values(|l: String| l@), 2),
        r.milestone@ == (match mr.milestone {
            Some(m) => m.title@,
            None => Seq::<char>::empty(),
        }),
        r.status@ == mr.spec_status_label(),
        r.status_tone == status_tone(mr.draft, mr.detailed_merge_status@),
{
    MrRow {
        dot: pipeline_dot_color(mr),
        title: mr.title.clone(),
        title_tone: if mr.draft {
            Tone::DarkGray
        } else {
            Tone::White
        },
        author: mr.author.username.clone(),
        labels: labels_line(mr.labels.as_slice(), 2),
        milestone: match &mr.milestone {
            Some(m) => m.title.clone(),
            None => String::new(),
        },
        status: mr.status_label(),
        status_tone: status_color(mr),
    }
}

/// The server shown in the header: the GitLab URL without its `https://` prefix.
pub fn header_server(gitlab_url: &str) -> (r: String)
    ensures
        r@ == trim_start_seq(gitlab_url@, "https://"@),
{
    trim_start_matching_str(gitlab_url, "https://")
}

/// The count at the right of the header: `{n} open MRs`.
pub fn count_label(n: usize) -> (r: String)
    ensures
        r@ == decimal(n as nat) + " open MRs"@,
{
    let mut r = decimal_string(n as u64);
    push_str(&mut r, " open MRs");
    r
}

/// The width of the count at the right of the header: its length plus one,
/// but no more than the header's width less twenty.
pub fn header_count_width(label_len: usize, area_width: u16) -> (w: u16)
    requires
        label_len < u16::MAX,
    ensures
        w == (if label_len + 1 < sat_sub16(area_width, 20) {
            label_len + 1
        } else {
            sat_sub16(area_width, 20) as int
        }),
{
    let a = (label_len as u16) + 1;
    let b = area_width.saturating_sub(20);
    if a < b {
        a
    } else {
        b
    }
}

/// `a - b` or zero.
pub open spec fn sat_sub16(a: u16, b: u16) -> u16 {
    if a > b {
        (a - b) as u16
    } else {
        0
    }
}

/// Enter in the list (not searching) opens the merge request under the
/// cursor among those the search shows, the one `selected_mr` gives: a merge
/// request of the list that matches the search, with its comments asked for
/// when connected. With no row under the cursor nothing changes.
pub proof fn lemma_enter_opens_selected(a: App, key: KeyInput, b: App, cmds: Seq<AppCommand>)
    requires
        !a.local_search_active,
        key.key == Key::Enter,
        list_key_effect(a, key, b, cmds),
    ensures
        ({
            let v = visible_spec(a.mrs@, a.local_search@);
            &&& a.selected_row < v.len() ==> {
                &&& b.current_mr matches Some(x) && same_mr(x, v[a.selected_row as int])
                &&& b.view == AppView::MrDetail
                &&& b.current_notes@.len() == 0 && b.current_diff@.len() == 0
                &&& exists|k: int| 0 <= k < a.mrs@.len() && b.current_mr->0 == MergeRequest {
                    reviewers: b.current_mr->0.reviewers,
                    labels: b.current_mr->0.labels,
                    ..#[trigger] a.mrs@[k]
                } && b.current_mr->0.labels@ == a.mrs@[k].labels@
                &&& a.local_search@.len() > 0 ==> mr_matches_query(b.current_mr->0, lowercase(a.local_search@))
                &&& a.connected ==> cmds == seq![AppCommand::LoadNotes(v[a.selected_row as int].project_id, v[a.selected_row as int].iid)]
            }
            &&& a.selected_row >= v.len() ==> b == a && cmds.len() == 0
        }),
{
    let v = visible_spec(a.mrs@, a.local_search@);
    if a.selected_row < v.len() {
        let m = v[a.selected_row as int];
        lemma_visible_are_matches(a.mrs@, a.local_search@);
        assert(v.contains(m));
        let k = choose|k: int| 0 <= k < a.mrs@.len() && a.mrs@[k] == m;
        assert(a.mrs@[k] == m);
        let x = b.current_mr->0;
        if a.local_search@.len() > 0 {
            let q = lowercase(a.local_search@);
            assert forall|i: int| 0 <= i < words_of(q).len() implies token_matches(x, #[trigger] words_of(q)[i]) by {
                assert(token_matches(m, words_of(q)[i]));
                if exists|j: int| 0 <= j < m.labels@.len() && has_infix(lowercase(#[trigger] m.labels@[j]@), words_of(q)[i]) {
                    let j = choose|j: int| 0 <= j < m.labels@.len() && has_infix(lowercase(#[trigger] m.labels@[j]@), words_of(q)[i]);
                    assert(x.labels@[j] == m.labels@[j]);
                }
            }
        }
    }
}

/// The bar under the list: the search field while searching (with the
/// number of matches), the kept search, else the error in red, else the
/// status message in green, else the key hints.
pub open spec fn list_bar_spans(a: App) -> Seq<(Seq<char>, TextStyle)> {
    let n = visible_spec(a.mrs@, a.local_search@).len();
    if a.local_search_active {
        seq![
            ("/"@, TextStyle { bold: true, ..fg_style(Tone::Yellow) }),
            (a.local_search@, fg_style(Tone::White)),
            ("█"@, fg_style(Tone::Yellow)),
            ("  ("@ + decimal(n) + " matches — Esc clear, Enter confirm)"@, fg_style(Tone::DarkGray)),
        ]
    } else if a.local_search@.len() > 0 {
        seq![
            ("/"@, fg_style(Tone::DarkGray)),
            (a.local_search@, fg_style(Tone::White)),
            ("  ("@ + decimal(n) + " matches)"@, fg_style(Tone::DarkGray)),
        ]
    } else if a.error is Some {
        seq![(" "@ + a.error->0@, fg_style(Tone::Red))]
    } else if a.status_msg is Some {
        seq![(" "@ + a.status_msg->0@, fg_style(Tone::Green))]
    } else {
        hint_spans(
            seq![
                ("c"@, "checkout"@),
                ("/"@, "search"@),
                ("r"@, "refresh"@),
                ("s"@, "settings"@),
                ("?"@, "help"@),
            ],
        )
    }
}

/// The bar under the list, and whether the label `loading… ` shows at its
/// right end: exactly while the list is loading.
pub fn list_bar(app: &App) -> (r: (StyledLine, bool))
    ensures
        r.0.deep_view() == list_bar_spans(*app),
        r.1 == app.loading,
{
    (list_bar_line(app), app.loading)
}

/// The line of the bar under the list.
fn list_bar_line(app: &App) -> (r: StyledLine)
    ensures
        r.deep_view() == list_bar_spans(*app),
{
    let mut line = empty_line();
    if app.local_search_active || !app.local_search.as_str().is_empty() {
        let n = app.visible_mrs().len();
        if app.local_search_active {
            push_span(&mut line, span("/", fg_bold(Tone::Yellow)));
        } else {
            push_span(&mut line, span("/", fg(Tone::DarkGray)));
        }
        push_span(&mut line, span(app.local_search.as_str(), fg(Tone::White)));
        if app.local_search_active {
            push_span(&mut line, span("█", fg(Tone::Yellow)));
        }
        let mut text = owned("  (");
        push_decimal(&mut text, n as u64);
        if app.local_search_active {
            push_str(&mut text, " matches — Esc clear, Enter confirm)");
        } else {
            push_str(&mut text, " matches)");
        }
        push_span(&mut line, StyledSpan { text, style: fg(Tone::DarkGray) });
        assert(line.deep_view() =~= list_bar_spans(*app));
        return line;
    }
    match &app.error {
        Some(err) => {
            let mut text = owned(" ");
            push_str(&mut text, err.as_str());
            push_span(&mut line, StyledSpan { text, style: fg(Tone::Red) });
            assert(line.deep_view() =~= list_bar_spans(*app));
            return line;
        },
        None => {},
    }
    match &app.status_msg {
        Some(msg) => {
            let mut text = owned(" ");
            push_str(&mut text, msg.as_str());
            push_span(&mut line, StyledSpan { text, style: fg(Tone::Green) });
            assert(line.deep_view() =~= list_bar_spans(*app));
            return line;
        },
        None => {},
    }
    let hints: [(&str, &str); 5] = [
        ("c", "checkout"),
        ("/", "search"),
        ("r", "refresh"),
        ("s", "settings"),
        ("?", "help"),
    ];
    let r = hints_line(&hints);
    assert(hints@.map_values(|h: (&str, &str)| (h.0@, h.1@)) =~= seq![
        ("c"@, "checkout"@),
        ("/"@, "search"@),
        ("r"@, "refresh"@),
        ("s"@, "settings"@),
        ("?"@, "help"@),
    ]);
    r
}

/// Where the list shows `Fetching MRs…` instead of the table (while the
/// first list loads): centred on the middle row of `area`, as wide as the
/// note's length in bytes.
pub open spec fn fetching_area(area: Area) -> Area {
    let w = 15int;
    let x = area.x + sat_sub(area.width as int, w) / 2;
    let y = area.y + area.height / 2;
    Area {
        x: x as u16,
        y: y as u16,
        width: (if w > u16::MAX - x { u16::MAX - x } else { w }) as u16,
        height: (if 1 > u16::MAX - y { u16::MAX - y } else { 1 }) as u16,
    }
}

/// The note shown instead of the table while the first list loads, and
/// where it goes in `area`; `None` when the table shows.
pub fn fetching_note(app: &App, area: Area) -> (r: Option<(&'static str, Area)>)
    requires
        area.x + area.width <= u16::MAX,
        area.y + area.height <= u16::MAX,
    ensures
        match r {
            Some(n) => app.loading && app.mrs@.len() == 0 && n.0@ == "Fetching MRs…"@ && n.1 == fetching_area(area),
            None => !(app.loading && app.mrs@.len() == 0),
        },
{
    if !(app.loading && app.mrs.len() == 0) {
        return None;
    }
    let label = "Fetching MRs…";
    let w: u16 = byte_width(label);
    proof {
        reveal_strlit("Fetching MRs…");
        reveal_with_fuel(byte_len, 14);
        assert(byte_len("Fetching MRs…"@) == 15);
    }
    let x = area.x + area.width.saturating_sub(w) / 2;
    let y = area.y + area.height / 2;
    let width = if w > u16::MAX - x {
        u16::MAX - x
    } else {
        w
    };
    let height = if 1 > u16::MAX - y {
        u16::MAX - y
    } else {
        1
    };
    Some((label, Area { x, y, width, height }))
}

} // verus!
