//! The key bindings popup and the plain status bar with its right-hand label.
use vstd::prelude::*;

use crate::style::{
    empty_line, fg, fg_bold, fg_style, push_line, push_span, span, StyledLine, StyledSpan,
    TextStyle, Tone,
};
use crate::text::{byte_len, chars_of, lemma_byte_len_is_utf8_len, push_char, push_str};
use crate::tui::app::App;
use crate::tui::area::sat_sub;
use crate::tui::views::mr_list::{hint_spans, hints_line};

verus! {

/// `s` padded with spaces on the right to `n` characters (`{:<n}`).
pub open spec fn pad_to(s: Seq<char>, n: nat) -> Seq<char> {
    if s.len() >= n {
        s
    } else {
        s + Seq::new((n - s.len()) as nat, |i: int| ' ')
    }
}

/// The lines of one section: its title in bold cyan, a line per binding
/// (the key padded to 24 columns in yellow, the action in white), then an
/// empty line.
pub open spec fn section_view(title: Seq<char>, bindings: Seq<(Seq<char>, Seq<char>)>) -> Seq<
    Seq<(Seq<char>, TextStyle)>,
> {
    seq![seq![("  "@ + title, TextStyle { bold: true, ..fg_style(Tone::Cyan) })]] + bindings.map_values(
        |b: (Seq<char>, Seq<char>)|
            seq![("    "@ + pad_to(b.0, 24), fg_style(Tone::Yellow)), (b.1, fg_style(Tone::White))],
    ) + seq![Seq::<(Seq<char>, TextStyle)>::empty()]
}

/// The bindings of the help popup.
pub open spec fn global_bindings() -> Seq<(Seq<char>, Seq<char>)> {
    seq![
        ("↑/↓  j/k"@, "Navigate / scroll"@),
        ("Ctrl+D / Ctrl+U"@, "Half page down / up"@),
        ("q  Ctrl+C"@, "Quit"@),
        ("?"@, "Toggle this help"@),
    ]
}

pub open spec fn list_bindings() -> Seq<(Seq<char>, Seq<char>)> {
    seq![
        ("Enter"@, "Open detail"@),
        ("/"@, "Quick search"@),
        ("c"@, "Checkout for review"@),
        ("r"@, "Refresh"@),
        ("s"@, "Settings"@),
    ]
}

pub open spec fn detail_bindings() -> Seq<(Seq<char>, Seq<char>)> {
    seq![
        ("[ ]"@, "Switch tabs"@),
        ("m"@, "Merge MR (when mergeable)"@),
        ("c"@, "Checkout for review"@),
        ("b"@, "Open MR in browser"@),
        ("o"@, "Open image/video URL in browser"@),
        ("Esc / ⌫"@, "Back to list"@),
        ("Tab / Shift+Tab"@, "Next / prev file  (Diff tab)"@),
    ]
}

pub open spec fn checkout_bindings() -> Seq<(Seq<char>, Seq<char>)> {
    seq![
        ("Tab"@, "Switch between review worktree / current location"@),
        ("Enter"@, "Confirm checkout"@),
        ("Esc"@, "Cancel"@),
    ]
}

pub open spec fn settings_bindings() -> Seq<(Seq<char>, Seq<char>)> {
    seq![
        ("Tab / ↑↓"@, "Move between fields"@),
        ("Space / Enter"@, "Edit field"@),
        ("Ctrl+S"@, "Save"@),
        ("Esc"@, "Cancel"@),
    ]
}

/// All lines of the help popup, section after section.
pub open spec fn help_view() -> Seq<Seq<(Seq<char>, TextStyle)>> {
    section_view("Global"@, global_bindings()) + section_view("MR List"@, list_bindings())
        + section_view("MR Detail"@, detail_bindings()) + section_view(
        "Checkout Panel"@,
        checkout_bindings(),
    ) + section_view("Settings"@, settings_bindings())
}

/// `s` padded with spaces on the right to 24 characters.
fn padded24(s: &str) -> (r: String)
    ensures
        r@ == pad_to(s@, 24),
{
    let n = chars_of(s).len();
    let mut r = String::new();
    push_str(&mut r, s);
    let mut k = n;
    while k < 24
        invariant
            n == s@.len(),
            n <= k,
            k <= 24 || k == n,
            r@ == s@ + Seq::new((k - n) as nat, |i: int| ' '),
        decreases 24 - k,
    {
        push_char(&mut r, ' ');
        assert(r@ =~= s@ + Seq::new((k + 1 - n) as nat, |i: int| ' '));
        k = k + 1;
    }
    assert(n >= 24 ==> r@ =~= s@);
    assert(n < 24 ==> k == 24);
    r
}

/// Appends the lines of one section.
fn push_section(out: &mut Vec<StyledLine>, title: &str, bindings: &[(&str, &str)])
    ensures
        final(out).deep_view() == old(out).deep_view() + section_view(
            title@,
            bindings@.map_values(|b: (&str, &str)| (b.0@, b.1@)),
        ),
{
    let ghost start = out.deep_view();
    let ghost bv = bindings@.map_values(|b: (&str, &str)| (b.0@, b.1@));
    let ghost rows = bv.map_values(
        |b: (Seq<char>, Seq<char>)|
            seq![("    "@ + pad_to(b.0, 24), fg_style(Tone::Yellow)), (b.1, fg_style(Tone::White))],
    );
    let mut head = empty_line();
    let mut t = String::new();
    push_str(&mut t, "  ");
    push_str(&mut t, title);
    push_span(&mut head, StyledSpan { text: t, style: fg_bold(Tone::Cyan) });
    push_line(out, head);
    let mut i: usize = 0;
    while i < bindings.len()
        invariant
            i <= bindings@.len(),
            bv == bindings@.map_values(|b: (&str, &str)| (b.0@, b.1@)),
            rows == bv.map_values(
                |b: (Seq<char>, Seq<char>)|
                    seq![("    "@ + pad_to(b.0, 24), fg_style(Tone::Yellow)), (b.1, fg_style(Tone::White))],
            ),
            out.deep_view() == start + seq![
                seq![("  "@ + title@, TextStyle { bold: true, ..fg_style(Tone::Cyan) })],
            ] + rows.take(i as int),
        decreases bindings.len() - i,
    {
        let (key, action) = bindings[i];
        let mut k = String::new();
        push_str(&mut k, "    ");
        let p = padded24(key);
        push_str(&mut k, p.as_str());
        let mut line = empty_line();
        push_span(&mut line, StyledSpan { text: k, style: fg(Tone::Yellow) });
        push_span(&mut line, span(action, fg(Tone::White)));
        push_line(out, line);
        assert(line.deep_view() =~= rows[i as int]);
        assert(rows.take(i + 1) =~= rows.take(i as int).push(rows[i as int]));
        i = i + 1;
    }
    assert(rows.take(i as int) =~= rows);
    push_line(out, empty_line());
    assert(out.deep_view() =~= start + section_view(title@, bv));
}

/// The lines of the help popup.
pub fn help_lines() -> (r: Vec<StyledLine>)
    ensures
        r.deep_view() == help_view(),
{
    let mut out: Vec<StyledLine> = Vec::new();
    let global: [(&str, &str); 4] = [
        ("↑/↓  j/k", "Navigate / scroll"),
        ("Ctrl+D / Ctrl+U", "Half page down / up"),
        ("q  Ctrl+C", "Quit"),
        ("?", "Toggle this help"),
    ];
    push_section(&mut out, "Global", &global);
    let list: [(&str, &str); 5] = [
        ("Enter", "Open detail"),
        ("/", "Quick search"),
        ("c", "Checkout for review"),
        ("r", "Refresh"),
        ("s", "Settings"),
    ];
    push_section(&mut out, "MR List", &list);
    let detail: [(&str, &str); 7] = [
        ("[ ]", "Switch tabs"),
        ("m", "Merge MR (when mergeable)"),
        ("c", "Checkout for review"),
        ("b", "Open MR in browser"),
        ("o", "Open image/video URL in browser"),
        ("Esc / ⌫", "Back to list"),
        ("Tab / Shift+Tab", "Next / prev file  (Diff tab)"),
    ];
    push_section(&mut out, "MR Detail", &detail);
    let checkout: [(&str, &str); 3] = [
        ("Tab", "Switch between review worktree / current location"),
        ("Enter", "Confirm checkout"),
        ("Esc", "Cancel"),
    ];
    push_section(&mut out, "Checkout Panel", &checkout);
    let settings: [(&str, &str); 4] = [
        ("Tab / ↑↓", "Move between fields"),
        ("Space / Enter", "Edit field"),
        ("Ctrl+S", "Save"),
        ("Esc", "Cancel"),
    ];
    push_section(&mut out, "Settings", &settings);
    assert(global@.map_values(|b: (&str, &str)| (b.0@, b.1@)) =~= global_bindings());
    assert(list@.map_values(|b: (&str, &str)| (b.0@, b.1@)) =~= list_bindings());
    assert(detail@.map_values(|b: (&str, &str)| (b.0@, b.1@)) =~= detail_bindings());
    assert(checkout@.map_values(|b: (&str, &str)| (b.0@, b.1@)) =~= checkout_bindings());
    assert(settings@.map_values(|b: (&str, &str)| (b.0@, b.1@)) =~= settings_bindings());
    out
}

/// The scroll position the popup uses and its title: the scroll is kept
/// where the last line still shows in the popup's inner height (its height
/// less the frame), and the title mentions scrolling when the lines do not
/// all fit.
pub fn help_frame(line_count: usize, popup_height: u16, scroll: u16) -> (r: (u16, &'static str))
    requires
        line_count <= u16::MAX,
    ensures
        ({
            let inner = sat_sub(popup_height as int, 2);
            let top = sat_sub(line_count as int, inner);
            &&& r.0 == (if scroll < top { scroll as int } else { top })
            &&& r.1@ == (if line_count > inner {
                " Keybindings  [?] close  ↑↓ scroll "@
            } else {
                " Keybindings  [?] close "@
            })
        }),
{
    let inner = popup_height.saturating_sub(2);
    let total = line_count as u16;
    let top = total.saturating_sub(inner);
    let s = if scroll < top {
        scroll
    } else {
        top
    };
    let title = if total > inner {
        " Keybindings  [?] close  ↑↓ scroll "
    } else {
        " Keybindings  [?] close "
    };
    (s, title)
}

/// A string's view, if there is one.
pub open spec fn opt_view(s: Option<&str>) -> Option<Seq<char>> {
    match s {
        Some(m) => Some(m@),
        None => None,
    }
}

/// The text and colour of the label at the right of a status bar:
/// `loading… ` in dark gray while loading, else the error in red, else the
/// message in green.
pub open spec fn right_label(loading: bool, msg: Option<Seq<char>>, err: Option<Seq<char>>) -> Option<
    (Seq<char>, Tone),
> {
    if loading {
        Some(("loading… "@, Tone::DarkGray))
    } else {
        match err {
            Some(e) => Some((e, Tone::Red)),
            None => match msg {
                Some(m) => Some((m, Tone::Green)),
                None => None,
            },
        }
    }
}

/// A status bar of key hints, and the label at its right, if any, with a
/// space after it: `right_err` in red, or else `right_msg` in green.
pub fn status_bar(hints: &[(&str, &str)], loading: bool, right_msg: Option<&str>, right_err: Option<&str>) -> (r: (
    StyledLine,
    Option<(String, Tone)>,
))
    ensures
        r.0.deep_view() == hint_spans(hints@.map_values(|h: (&str, &str)| (h.0@, h.1@))),
        match right_label(loading, opt_view(right_msg), opt_view(right_err)) {
            Some((t, c)) => r.1 matches Some(x) && x.0@ == t + " "@ && x.1 == c,
            None => r.1 is None,
        },
{
    let line = hints_line(hints);
    let label = if loading {
        let mut t = String::new();
        push_str(&mut t, "loading… ");
        push_str(&mut t, " ");
        Some((t, Tone::DarkGray))
    } else {
        match right_err {
            Some(e) => {
                let mut t = String::new();
                push_str(&mut t, e);
                push_str(&mut t, " ");
                Some((t, Tone::Red))
            },
            None => match right_msg {
                Some(m) => {
                    let mut t = String::new();
                    push_str(&mut t, m);
                    push_str(&mut t, " ");
                    Some((t, Tone::Green))
                },
                None => None,
            },
        }
    };
    (line, label)
}

/// The bar under the settings screen: the save and help hints, and at its
/// right the error in red, or else the status message in green.
pub fn settings_bar(app: &App) -> (r: (StyledLine, Option<(String, Tone)>))
    ensures
        r.0.deep_view() == hint_spans(seq![("Ctrl+S"@, "save"@), ("?"@, "help"@)]),
        match right_label(
            false,
            match app.status_msg {
                Some(m) => Some(m@),
                None => None,
            },
            match app.error {
                Some(e) => Some(e@),
                None => None,
            },
        ) {
            Some((t, c)) => r.1 matches Some(x) && x.0@ == t + " "@ && x.1 == c,
            None => r.1 is None,
        },
{
    let hints: [(&str, &str); 2] = [("Ctrl+S", "save"), ("?", "help")];
    let msg = match &app.status_msg {
        Some(m) => Some(m.as_str()),
        None => None,
    };
    let err = match &app.error {
        Some(e) => Some(e.as_str()),
        None => None,
    };
    let r = status_bar(&hints, false, msg, err);
    assert(hints@.map_values(|h: (&str, &str)| (h.0@, h.1@)) =~= seq![("Ctrl+S"@, "save"@), ("?"@, "help"@)]);
    r
}

/// The width of a label in cells: its number of characters, as a `u16`.
#[verifier::truncate]
pub fn label_width(label: &str) -> (w: u16)
    ensures
        w as int == label@.len() % 65536,
{
    let n = chars_of(label).len();
    proof {
        assert((n as u16) as int == n % 65536) by (bit_vector);
    }
    n as u16
}

/// The width of a label as the list and detail bars reckon it: its length
/// in bytes, as a `u16`.
#[verifier::truncate]
pub fn byte_width(label: &str) -> (w: u16)
    ensures
        w as int == byte_len(label@) % 65536,
{
    let n = label.as_bytes().len();
    proof {
        lemma_byte_len_is_utf8_len(label@);
        assert((n as u16) as int == n % 65536) by (bit_vector);
    }
    n as u16
}

} // verus!
