//! What the detail screen shows, as styled lines: the title, the two
//! information rows, the tab bar, the description, the diff with its file
//! list, the footer and the bar under the screen.
use vstd::prelude::*;

use crate::gitlab::types::{
    count_changes, date_part, date_text, diff_changes, diff_line_total, diff_stats, is_added_line, is_removed_line,
    FileDiff, MergeRequest, Note, Pipeline, User,
};
use crate::style::{
    append_spans, empty_line, fg, fg_bold, fg_style, plain_style, push_line, push_span, raw_span, span, StyledLine,
    StyledSpan, TextStyle, Tone,
};
use crate::text::{
    decimal, has_prefix, join_strings, join_with, lines, lines_of, push_decimal, push_str,
    starts_with, str_eq,
};
use crate::tui::app::App;
use crate::markdown::{markdown_events, md_render, render};
use crate::tui::views::mr_detail::{
    files_span, pipeline_override, pipeline_status_override, truncate_path, truncated_path,
    DetailTab,
};
use crate::tui::views::mr_list::{hint_spans, hints_line, labels_line, labels_spans, sat_sub16};

verus! {

/// A string holding `s`.
fn owned(s: &str) -> (r: String)
    ensures
        r@ == s@,
{
    let mut r = String::new();
    push_str(&mut r, s);
    r
}

/// The colour of a merge request's state: magenta when merged, red when
/// closed, green otherwise.
pub open spec fn state_tone(state: Seq<char>) -> Tone {
    if state == "merged"@ {
        Tone::Magenta
    } else if state == "closed"@ {
        Tone::Red
    } else {
        Tone::Green
    }
}

/// The title row: a space, `[Draft] ` for a draft, the bold white title, then
/// the state in brackets in its colour.
pub open spec fn title_spans(mr: MergeRequest) -> Seq<(Seq<char>, TextStyle)> {
    seq![(" "@, plain_style())] + (if mr.draft {
        seq![("[Draft] "@, fg_style(Tone::DarkGray))]
    } else {
        Seq::<(Seq<char>, TextStyle)>::empty()
    }) + seq![
        (mr.title@, TextStyle { bold: true, ..fg_style(Tone::White) }),
        ("  "@, plain_style()),
        ("["@ + mr.state@ + "]"@, fg_style(state_tone(mr.state@))),
    ]
}

/// The title row of a merge request.
pub fn title_line(mr: &MergeRequest) -> (r: StyledLine)
    ensures
        r.deep_view() == title_spans(*mr),
{
    let mut line = empty_line();
    push_span(&mut line, raw_span(" "));
    if mr.draft {
        push_span(&mut line, span("[Draft] ", fg(Tone::DarkGray)));
    }
    push_span(&mut line, StyledSpan { text: mr.title.clone(), style: fg_bold(Tone::White) });
    push_span(&mut line, raw_span("  "));
    let s = mr.state.as_str();
    let tone = if str_eq(s, "merged") {
        Tone::Magenta
    } else if str_eq(s, "closed") {
        Tone::Red
    } else {
        Tone::Green
    };
    let mut text = owned("[");
    push_str(&mut text, s);
    push_str(&mut text, "]");
    push_span(&mut line, StyledSpan { text, style: fg(tone) });
    assert(line.deep_view() =~= title_spans(*mr));
    line
}

/// The colour of a merge status: green when mergeable, yellow with open
/// discussions, gray otherwise.
pub open spec fn merge_tone(status: Seq<char>) -> Tone {
    if status == "mergeable"@ {
        Tone::Green
    } else if status == "discussions_not_resolved"@ {
        Tone::Yellow
    } else {
        Tone::Gray
    }
}

/// The status shown with its colour: the pipeline's where it is failed,
/// running or pending, else the merge request's own.
pub open spec fn info_status(mr: MergeRequest, pipeline: Option<Pipeline>) -> (Seq<char>, Tone) {
    let own = (mr.spec_status_label(), merge_tone(mr.detailed_merge_status@));
    match pipeline {
        Some(p) => match pipeline_override(p.status@) {
            Some(o) => o,
            None => own,
        },
        None => own,
    }
}

/// `@name` for each user.
pub open spec fn at_names(users: Seq<User>) -> Seq<Seq<char>> {
    users.map_values(|u: User| "@"@ + u.username@)
}

/// The author and, where there are any, those asked to look at the change.
pub open spec fn people_spans(mr: MergeRequest) -> Seq<(Seq<char>, TextStyle)> {
    let dark = fg_style(Tone::DarkGray);
    seq![("  Author "@, dark), ("@"@ + mr.author.username@, fg_style(Tone::Cyan))] + if mr.reviewers@.len() > 0 {
        seq![(" → "@, dark), (join_with(at_names(mr.reviewers@), ", "@), fg_style(Tone::Cyan))]
    } else {
        Seq::<(Seq<char>, TextStyle)>::empty()
    }
}

/// The status and, where there are any, the approvers.
pub open spec fn status_spans(mr: MergeRequest, approvers: Seq<User>, pipeline: Option<Pipeline>) -> Seq<
    (Seq<char>, TextStyle),
> {
    let dark = fg_style(Tone::DarkGray);
    let st = info_status(mr, pipeline);
    seq![("   Status "@, dark), (st.0, fg_style(st.1))] + if approvers.len() > 0 {
        seq![("   Approved by "@, dark), (join_with(at_names(approvers), ", "@), fg_style(Tone::Green))]
    } else {
        Seq::<(Seq<char>, TextStyle)>::empty()
    }
}

/// The labels and the milestone, each where there is one.
pub open spec fn tag_spans(mr: MergeRequest) -> Seq<(Seq<char>, TextStyle)> {
    let dark = fg_style(Tone::DarkGray);
    let labels = mr.labels@.map_values(|l: String| l@);
    (if labels.len() > 0 {
        seq![("   Labels "@, dark)] + labels_spans(labels, labels.len())
    } else {
        Seq::<(Seq<char>, TextStyle)>::empty()
    }) + match mr.milestone {
        Some(m) => seq![("   Milestone "@, dark), (m.title@, fg_style(Tone::White))],
        None => Seq::<(Seq<char>, TextStyle)>::empty(),
    }
}

/// The first information row: author, those asked to look at it, status, approvers, labels
/// and milestone, each part after the first only where there is something
/// to show.
pub open spec fn info_spans(mr: MergeRequest, approvers: Seq<User>, pipeline: Option<Pipeline>) -> Seq<
    (Seq<char>, TextStyle),
> {
    people_spans(mr) + status_spans(mr, approvers, pipeline) + tag_spans(mr)
}

/// `@name` of each user, joined with `, `.
fn at_list(users: &Vec<User>) -> (r: String)
    ensures
        r@ == join_with(at_names(users@), ", "@),
{
    let mut names: Vec<String> = Vec::new();
    let mut i: usize = 0;
    while i < users.len()
        invariant
            i <= users@.len(),
            names@.len() == i,
            forall|k: int| 0 <= k < i ==> #[trigger] names@[k]@ == "@"@ + users@[k].username@,
        decreases users.len() - i,
    {
        let mut n = owned("@");
        push_str(&mut n, users[i].username.as_str());
        names.push(n);
        i = i + 1;
    }
    assert(names@.map_values(|x: String| x@) =~= at_names(users@));
    join_strings(&names, ", ")
}

/// The option's value, read through the reference.
pub open spec fn deref_pipeline(p: Option<&Pipeline>) -> Option<Pipeline> {
    match p {
        Some(x) => Some(*x),
        None => None,
    }
}

/// The first information row of a merge request, with its approvers and
/// its pipeline as known.
pub fn info_line(mr: &MergeRequest, approvers: &Vec<User>, pipeline: Option<&Pipeline>) -> (r: StyledLine)
    ensures
        r.deep_view() == info_spans(*mr, approvers@, deref_pipeline(pipeline)),
{
    let mut line = people_line(mr);
    append_spans(&mut line, status_line(mr, approvers, pipeline));
    append_spans(&mut line, tag_line(mr));
    line
}

fn people_line(mr: &MergeRequest) -> (r: StyledLine)
    ensures
        r.deep_view() == people_spans(*mr),
{
    let mut line = empty_line();
    push_span(&mut line, span("  Author ", fg(Tone::DarkGray)));
    let mut author = owned("@");
    push_str(&mut author, mr.author.username.as_str());
    push_span(&mut line, StyledSpan { text: author, style: fg(Tone::Cyan) });
    if mr.reviewers.len() > 0 {
        push_span(&mut line, span(" → ", fg(Tone::DarkGray)));
        push_span(&mut line, StyledSpan { text: at_list(&mr.reviewers), style: fg(Tone::Cyan) });
    }
    assert(line.deep_view() =~= people_spans(*mr));
    line
}

fn status_line(mr: &MergeRequest, approvers: &Vec<User>, pipeline: Option<&Pipeline>) -> (r: StyledLine)
    ensures
        r.deep_view() == status_spans(*mr, approvers@, deref_pipeline(pipeline)),
{
    let (text, tone) = match pipeline_status_override(pipeline) {
        Some(o) => o,
        None => {
            let tone = if mr.is_mergeable() {
                Tone::Green
            } else if str_eq(mr.detailed_merge_status.as_str(), "discussions_not_resolved") {
                Tone::Yellow
            } else {
                Tone::Gray
            };
            (owned(mr.status_label()), tone)
        },
    };
    assert(text@ == info_status(*mr, deref_pipeline(pipeline)).0);
    assert(tone == info_status(*mr, deref_pipeline(pipeline)).1);
    let mut line = empty_line();
    push_span(&mut line, span("   Status ", fg(Tone::DarkGray)));
    push_span(&mut line, StyledSpan { text, style: fg(tone) });
    if approvers.len() > 0 {
        push_span(&mut line, span("   Approved by ", fg(Tone::DarkGray)));
        push_span(&mut line, StyledSpan { text: at_list(approvers), style: fg(Tone::Green) });
    }
    assert(line.deep_view() =~= status_spans(*mr, approvers@, deref_pipeline(pipeline)));
    line
}

fn tag_line(mr: &MergeRequest) -> (r: StyledLine)
    ensures
        r.deep_view() == tag_spans(*mr),
{
    let mut line = empty_line();
    if mr.labels.len() > 0 {
        push_span(&mut line, span("   Labels ", fg(Tone::DarkGray)));
        append_spans(&mut line, labels_line(mr.labels.as_slice(), mr.labels.len()));
    }
    match &mr.milestone {
        Some(m) => {
            push_span(&mut line, span("   Milestone ", fg(Tone::DarkGray)));
            push_span(&mut line, StyledSpan { text: m.title.clone(), style: fg(Tone::White) });
        },
        None => {},
    }
    assert(line.deep_view() =~= tag_spans(*mr));
    line
}

/// The second information row: the source and target branches.
pub open spec fn branch_spans(mr: MergeRequest) -> Seq<(Seq<char>, TextStyle)> {
    seq![
        ("  Branch "@, fg_style(Tone::DarkGray)),
        (mr.source_branch@, fg_style(Tone::Blue)),
        (" → "@, fg_style(Tone::DarkGray)),
        (mr.target_branch@, fg_style(Tone::Blue)),
    ]
}

/// The branch row of a merge request.
pub fn branch_line(mr: &MergeRequest) -> (r: StyledLine)
    ensures
        r.deep_view() == branch_spans(*mr),
{
    let mut line = empty_line();
    push_span(&mut line, span("  Branch ", fg(Tone::DarkGray)));
    push_span(&mut line, StyledSpan { text: mr.source_branch.clone(), style: fg(Tone::Blue) });
    push_span(&mut line, span(" → ", fg(Tone::DarkGray)));
    push_span(&mut line, StyledSpan { text: mr.target_branch.clone(), style: fg(Tone::Blue) });
    assert(line.deep_view() =~= branch_spans(*mr));
    line
}

/// The style of a tab's title: bold, underlined cyan for the tab shown,
/// dark gray for the other.
pub open spec fn tab_style(tab: DetailTab, shown: DetailTab) -> TextStyle {
    if tab == shown {
        TextStyle { bold: true, underlined: true, ..fg_style(Tone::Cyan) }
    } else {
        fg_style(Tone::DarkGray)
    }
}

/// The tab bar: a space, then each tab's title followed by three spaces; the
/// diff tab reads `Diff (loading…)` while its diff loads.
pub open spec fn tab_spans(diff_loading: bool, shown: DetailTab) -> Seq<(Seq<char>, TextStyle)> {
    seq![
        (" "@, plain_style()),
        ("Description"@, tab_style(DetailTab::Description, shown)),
        ("   "@, plain_style()),
        (if diff_loading { "Diff (loading…)"@ } else { "Diff"@ }, tab_style(DetailTab::Diff, shown)),
        ("   "@, plain_style()),
    ]
}

fn tab_style_of(tab: DetailTab, shown: DetailTab) -> (s: TextStyle)
    ensures
        s == tab_style(tab, shown),
{
    if tab == shown {
        TextStyle { fg: Tone::Cyan, bold: true, italic: false, crossed_out: false, underlined: true }
    } else {
        fg(Tone::DarkGray)
    }
}

/// The tab bar of the detail screen.
pub fn tab_bar_line(diff_loading: bool, shown: DetailTab) -> (r: StyledLine)
    ensures
        r.deep_view() == tab_spans(diff_loading, shown),
{
    let mut line = empty_line();
    push_span(&mut line, raw_span(" "));
    push_span(&mut line, span(DetailTab::Description.label(), tab_style_of(DetailTab::Description, shown)));
    push_span(&mut line, raw_span("   "));
    let diff_title = if diff_loading {
        "Diff (loading…)"
    } else {
        DetailTab::Diff.label()
    };
    push_span(&mut line, span(diff_title, tab_style_of(DetailTab::Diff, shown)));
    push_span(&mut line, raw_span("   "));
    assert(line.deep_view() =~= tab_spans(diff_loading, shown));
    line
}

/// The footer: the full reference and the date of the last update, in dark gray.
pub open spec fn footer_text(mr: MergeRequest) -> Seq<char> {
    " "@ + mr.references.full@ + "  ·  "@ + date_part(mr.updated_at@)
}

/// The footer of a merge request.
pub fn footer_line(mr: &MergeRequest) -> (r: StyledLine)
    ensures
        r.deep_view() == seq![(footer_text(*mr), fg_style(Tone::DarkGray))],
{
    let mut text = owned(" ");
    push_str(&mut text, mr.references.full.as_str());
    push_str(&mut text, "  ·  ");
    let date = mr.formatted_updated();
    push_str(&mut text, date.as_str());
    let mut line = empty_line();
    push_span(&mut line, StyledSpan { text, style: fg(Tone::DarkGray) });
    assert(line.deep_view() =~= seq![(footer_text(*mr), fg_style(Tone::DarkGray))]);
    line
}

/// The markdown the description tab renders: the description, or an
/// italic note where there is none.
pub open spec fn description_source(mr: MergeRequest) -> Seq<char> {
    match mr.description {
        Some(d) => d@,
        None => "*No description.*"@,
    }
}

/// The rendered description (its lines and the media URLs in it).
pub fn description_lines(mr: &MergeRequest) -> (r: (Vec<StyledLine>, Vec<String>))
    ensures
        (r.0.deep_view(), r.1.deep_view()) == md_render(markdown_events(description_source(*mr))),
{
    match &mr.description {
        Some(d) => render(d.as_str()),
        None => render("*No description.*"),
    }
}

/// The lines of one comment: its author in bold cyan and its date in dark
/// gray, its text indented by two spaces, then an empty line.
pub open spec fn note_view(n: Note) -> Seq<Seq<(Seq<char>, TextStyle)>> {
    seq![
        seq![
            ("@"@ + n.author.username@, TextStyle { bold: true, ..fg_style(Tone::Cyan) }),
            ("  "@ + date_part(n.created_at@), fg_style(Tone::DarkGray)),
        ],
    ] + lines_of(n.body@).map_values(|l: Seq<char>| seq![("  "@ + l, plain_style())]) + seq![
        Seq::<(Seq<char>, TextStyle)>::empty(),
    ]
}

/// The lines of the comments people wrote (system notes left out), in order.
pub open spec fn notes_view(ns: Seq<Note>) -> Seq<Seq<(Seq<char>, TextStyle)>>
    decreases ns.len(),
{
    if ns.len() == 0 {
        seq![]
    } else if ns.last().system {
        notes_view(ns.drop_last())
    } else {
        notes_view(ns.drop_last()) + note_view(ns.last())
    }
}

/// The comments section shown under the description: a bold title and the
/// comments, or nothing where no one commented.
pub open spec fn comments_view(ns: Seq<Note>) -> Seq<Seq<(Seq<char>, TextStyle)>> {
    if notes_view(ns).len() == 0 {
        seq![]
    } else {
        seq![seq![(" Comments"@, TextStyle { bold: true, ..fg_style(Tone::White) })]] + notes_view(ns)
    }
}

/// Appends the lines of one comment.
fn push_note_lines(out: &mut Vec<StyledLine>, n: &Note)
    ensures
        final(out).deep_view() == old(out).deep_view() + note_view(*n),
{
    let ghost start = out.deep_view();
    let mut head = empty_line();
    let mut who = owned("@");
    push_str(&mut who, n.author.username.as_str());
    push_span(&mut head, StyledSpan { text: who, style: fg_bold(Tone::Cyan) });
    let mut when = owned("  ");
    let date = date_text(n.created_at.as_str());
    push_str(&mut when, date.as_str());
    push_span(&mut head, StyledSpan { text: when, style: fg(Tone::DarkGray) });
    let ghost hv = seq![
        ("@"@ + n.author.username@, TextStyle { bold: true, ..fg_style(Tone::Cyan) }),
        ("  "@ + date_part(n.created_at@), fg_style(Tone::DarkGray)),
    ];
    assert(head.deep_view() =~= hv);
    push_line(out, head);
    let ls = lines(n.body.as_str());
    let ghost lv = ls@.map_values(|x: String| x@);
    let ghost body = lv.map_values(|l: Seq<char>| seq![("  "@ + l, plain_style())]);
    assert(out.deep_view() =~= start + seq![hv] + body.take(0));
    let mut j: usize = 0;
    while j < ls.len()
        invariant
            j <= ls@.len(),
            lv == ls@.map_values(|x: String| x@),
            lv == lines_of(n.body@),
            body == lv.map_values(|l: Seq<char>| seq![("  "@ + l, plain_style())]),
            out.deep_view() == start + seq![
                seq![
                    ("@"@ + n.author.username@, TextStyle { bold: true, ..fg_style(Tone::Cyan) }),
                    ("  "@ + date_part(n.created_at@), fg_style(Tone::DarkGray)),
                ],
            ] + body.take(j as int),
        decreases ls.len() - j,
    {
        let mut t = owned("  ");
        push_str(&mut t, ls[j].as_str());
        let mut line = empty_line();
        push_span(&mut line, raw_span_owned(t));
        push_line(out, line);
        assert(lv[j as int] == ls@[j as int]@);
        assert(body.take(j + 1) =~= body.take(j as int).push(seq![("  "@ + lv[j as int], plain_style())]));
        j = j + 1;
    }
    assert(body.take(j as int) =~= body);
    push_line(out, empty_line());
    assert(out.deep_view() =~= start + note_view(*n));
}

/// A span holding `text` in the plain style.
fn raw_span_owned(text: String) -> (r: StyledSpan)
    ensures
        r.deep_view() == (text@, plain_style()),
{
    StyledSpan { text, style: TextStyle { fg: Tone::Default, bold: false, italic: false, crossed_out: false, underlined: false } }
}

/// The comments section of a merge request's comments.
pub fn comments_lines(notes: &Vec<Note>) -> (r: Vec<StyledLine>)
    ensures
        r.deep_view() == comments_view(notes@),
{
    let mut body: Vec<StyledLine> = Vec::new();
    let mut i: usize = 0;
    assert(body.deep_view() =~= notes_view(notes@.take(0)));
    while i < notes.len()
        invariant
            i <= notes@.len(),
            body.deep_view() == notes_view(notes@.take(i as int)),
        decreases notes.len() - i,
    {
        assert(notes@.take(i + 1).drop_last() =~= notes@.take(i as int));
        if !notes[i].system {
            push_note_lines(&mut body, &notes[i]);
        }
        i = i + 1;
    }
    assert(notes@.take(i as int) =~= notes@);
    if body.len() == 0 {
        return body;
    }
    let mut out: Vec<StyledLine> = Vec::new();
    let mut title = empty_line();
    push_span(&mut title, span(" Comments", fg_bold(Tone::White)));
    push_line(&mut out, title);
    let ghost head = out.deep_view();
    out.append(&mut body);
    assert(out.deep_view() =~= head + notes_view(notes@));
    out
}

/// The lines of the description tab: the rendered description, then the
/// comments section.
pub fn description_tab_lines(mr: &MergeRequest, notes: &Vec<Note>) -> (r: Vec<StyledLine>)
    ensures
        r.deep_view() == md_render(markdown_events(description_source(*mr))).0 + comments_view(notes@),
{
    let (mut out, _) = description_lines(mr);
    let ghost head = out.deep_view();
    let mut tail = comments_lines(notes);
    out.append(&mut tail);
    assert(out.deep_view() =~= head + comments_view(notes@));
    out
}

/// The colour of a diff line: green for an added line, red for a removed
/// one, cyan for a hunk header, dark gray otherwise.
pub open spec fn diff_line_tone(l: Seq<char>) -> Tone {
    if is_added_line(l) {
        Tone::Green
    } else if is_removed_line(l) {
        Tone::Red
    } else if has_prefix(l, "@@"@) {
        Tone::Cyan
    } else {
        Tone::DarkGray
    }
}

/// The colour of a diff line.
pub fn diff_line_color(l: &str) -> (t: Tone)
    ensures
        t == diff_line_tone(l@),
{
    if starts_with(l, "+") && !starts_with(l, "+++") {
        Tone::Green
    } else if starts_with(l, "-") && !starts_with(l, "---") {
        Tone::Red
    } else if starts_with(l, "@@") {
        Tone::Cyan
    } else {
        Tone::DarkGray
    }
}

/// The header of a file in the diff: `[new]` with the new path, `[del]` with
/// the old path, `[ren]` with both, or the path alone.
pub open spec fn file_label(f: FileDiff) -> Seq<char> {
    if f.new_file {
        " [new] "@ + f.new_path@
    } else if f.deleted_file {
        " [del] "@ + f.old_path@
    } else if f.renamed_file {
        " [ren] "@ + f.old_path@ + " → "@ + f.new_path@
    } else {
        " "@ + f.new_path@
    }
}

/// The lines a file takes in the diff: its header in bold cyan, each line
/// of its diff in its colour, then an empty line.
pub open spec fn file_view(f: FileDiff) -> Seq<Seq<(Seq<char>, TextStyle)>> {
    seq![seq![(file_label(f), TextStyle { bold: true, ..fg_style(Tone::Cyan) })]] + lines_of(
        f.diff@,
    ).map_values(|l: Seq<char>| seq![(l, fg_style(diff_line_tone(l)))]) + seq![
        Seq::<(Seq<char>, TextStyle)>::empty(),
    ]
}

/// The lines of the whole diff, file after file.
pub open spec fn diff_view(files: Seq<FileDiff>) -> Seq<Seq<(Seq<char>, TextStyle)>>
    decreases files.len(),
{
    if files.len() == 0 {
        seq![]
    } else {
        diff_view(files.drop_last()) + file_view(files.last())
    }
}

fn file_label_of(f: &FileDiff) -> (r: String)
    ensures
        r@ == file_label(*f),
{
    if f.new_file {
        let mut r = owned(" [new] ");
        push_str(&mut r, f.new_path.as_str());
        r
    } else if f.deleted_file {
        let mut r = owned(" [del] ");
        push_str(&mut r, f.old_path.as_str());
        r
    } else if f.renamed_file {
        let mut r = owned(" [ren] ");
        push_str(&mut r, f.old_path.as_str());
        push_str(&mut r, " → ");
        push_str(&mut r, f.new_path.as_str());
        r
    } else {
        let mut r = owned(" ");
        push_str(&mut r, f.new_path.as_str());
        r
    }
}

/// Appends the lines of one file to the diff's lines.
fn push_file_lines(out: &mut Vec<StyledLine>, f: &FileDiff)
    ensures
        final(out).deep_view() == old(out).deep_view() + file_view(*f),
{
    let ghost start = out.deep_view();
    let mut head = empty_line();
    push_span(&mut head, StyledSpan { text: file_label_of(f), style: fg_bold(Tone::Cyan) });
    push_line(out, head);
    let ls = lines(f.diff.as_str());
    let ghost lv = ls@.map_values(|x: String| x@);
    let ghost body = lv.map_values(|l: Seq<char>| seq![(l, fg_style(diff_line_tone(l)))]);
    let mut j: usize = 0;
    while j < ls.len()
        invariant
            j <= ls@.len(),
            lv == ls@.map_values(|x: String| x@),
            lv == lines_of(f.diff@),
            body == lv.map_values(|l: Seq<char>| seq![(l, fg_style(diff_line_tone(l)))]),
            out.deep_view() == start + seq![
                seq![(file_label(*f), TextStyle { bold: true, ..fg_style(Tone::Cyan) })],
            ] + body.take(j as int),
        decreases ls.len() - j,
    {
        let l = ls[j].as_str();
        let tone = diff_line_color(l);
        let mut line = empty_line();
        push_span(&mut line, span(l, fg(tone)));
        push_line(out, line);
        assert(lv[j as int] == ls@[j as int]@);
        assert(body.take(j + 1) =~= body.take(j as int).push(seq![(lv[j as int], fg_style(tone))]));
        j = j + 1;
    }
    assert(body.take(j as int) =~= body);
    push_line(out, empty_line());
    assert(out.deep_view() =~= start + file_view(*f));
}

/// No file of the diff has 65536 lines or more.
pub open spec fn line_counts_fit(files: Seq<FileDiff>) -> bool {
    forall|k: int| 0 <= k < files.len() ==> #[trigger] lines_of(files[k].diff@).len() < 65536
}

proof fn lemma_diff_view_len(files: Seq<FileDiff>)
    requires
        line_counts_fit(files),
    ensures
        diff_view(files).len() == files_span(files),
    decreases files.len(),
{
    if files.len() > 0 {
        let init = files.drop_last();
        assert forall|k: int| 0 <= k < init.len() implies #[trigger] lines_of(init[k].diff@).len() < 65536 by {
            assert(init[k] == files[k]);
        }
        lemma_diff_view_len(init);
        assert(lines_of(files[files.len() - 1].diff@).len() < 65536);
    }
}

proof fn lemma_diff_view_prefix(files: Seq<FileDiff>, i: int, j: int)
    requires
        0 <= i <= files.len(),
        0 <= j < diff_view(files.take(i)).len(),
    ensures
        j < diff_view(files).len(),
        diff_view(files)[j] == diff_view(files.take(i))[j],
    decreases files.len() - i,
{
    if i < files.len() {
        assert(files.take(i + 1).drop_last() =~= files.take(i));
        lemma_diff_view_prefix(files, i + 1, j);
    } else {
        assert(files.take(i) =~= files);
    }
}

/// The diff's lines, file by file (when no file has 65536 lines or more):
/// as many as `files_span` counts, and where `file_line_offsets` puts file
/// `i` stand its header, then each line of its diff in its colour, then a
/// blank line.
pub proof fn lemma_diff_layout(files: Seq<FileDiff>, i: int)
    requires
        0 <= i < files.len(),
        line_counts_fit(files),
    ensures
        ({
            let at = files_span(files.take(i));
            let ls = lines_of(files[i].diff@);
            &&& diff_view(files).len() == files_span(files)
            &&& at + ls.len() + 1 < diff_view(files).len()
            &&& diff_view(files)[at] == seq![
                (file_label(files[i]), TextStyle { bold: true, ..fg_style(Tone::Cyan) }),
            ]
            &&& forall|j: int| 0 <= j < ls.len() ==> #[trigger] diff_view(files)[at + 1 + j] == seq![
                (ls[j], fg_style(diff_line_tone(ls[j]))),
            ]
            &&& diff_view(files)[at + ls.len() + 1] == Seq::<(Seq<char>, TextStyle)>::empty()
        }),
{
    let pre = files.take(i);
    assert forall|k: int| 0 <= k < pre.len() implies #[trigger] lines_of(pre[k].diff@).len() < 65536 by {
        assert(pre[k] == files[k]);
    }
    lemma_diff_view_len(pre);
    lemma_diff_view_len(files);
    assert(files.take(i + 1).drop_last() =~= pre);
    assert(files.take(i + 1).last() == files[i]);
    let at = files_span(pre);
    let fv = file_view(files[i]);
    let ls = lines_of(files[i].diff@);
    assert(diff_view(files.take(i + 1)) == diff_view(pre) + fv);
    assert forall|j: int| 0 <= j < fv.len() implies at + j < diff_view(files).len() && #[trigger] diff_view(
        files,
    )[at + j] == fv[j] by {
        lemma_diff_view_prefix(files, i + 1, at + j);
    }
    assert(fv.len() == ls.len() + 2);
    assert(diff_view(files)[at + 0] == fv[0]);
    assert forall|j: int| 0 <= j < ls.len() implies #[trigger] diff_view(files)[at + 1 + j] == seq![
        (ls[j], fg_style(diff_line_tone(ls[j]))),
    ] by {
        assert(diff_view(files)[at + (1 + j)] == fv[1 + j]);
    }
    assert(diff_view(files)[at + (ls.len() + 1int)] == fv[ls.len() + 1int]);
}

/// The number of lines whose first span has colour `tone`.
pub open spec fn count_toned(ls: Seq<Seq<(Seq<char>, TextStyle)>>, tone: Tone) -> nat
    decreases ls.len(),
{
    if ls.len() == 0 {
        0
    } else {
        count_toned(ls.drop_last(), tone) + (if ls.last().len() > 0 && ls.last()[0].1.fg == tone {
            1nat
        } else {
            0nat
        })
    }
}

proof fn lemma_count_toned_append(a: Seq<Seq<(Seq<char>, TextStyle)>>, b: Seq<Seq<(Seq<char>, TextStyle)>>, tone: Tone)
    ensures
        count_toned(a + b, tone) == count_toned(a, tone) + count_toned(b, tone),
    decreases b.len(),
{
    if b.len() > 0 {
        assert((a + b).drop_last() =~= a + b.drop_last());
        lemma_count_toned_append(a, b.drop_last(), tone);
    } else {
        assert(a + b =~= a);
    }
}

proof fn lemma_count_toned_body(ls: Seq<Seq<char>>)
    ensures
        count_toned(ls.map_values(|l: Seq<char>| seq![(l, fg_style(diff_line_tone(l)))]), Tone::Green)
            == count_changes(ls).0,
        count_toned(ls.map_values(|l: Seq<char>| seq![(l, fg_style(diff_line_tone(l)))]), Tone::Red)
            == count_changes(ls).1,
    decreases ls.len(),
{
    if ls.len() > 0 {
        let f = |l: Seq<char>| seq![(l, fg_style(diff_line_tone(l)))];
        assert(ls.drop_last().map_values(f) =~= ls.map_values(f).drop_last());
        lemma_count_toned_body(ls.drop_last());
    }
}

proof fn lemma_count_toned_file(f: FileDiff)
    ensures
        count_toned(file_view(f), Tone::Green) == count_changes(lines_of(f.diff@)).0,
        count_toned(file_view(f), Tone::Red) == count_changes(lines_of(f.diff@)).1,
{
    let head = seq![seq![(file_label(f), TextStyle { bold: true, ..fg_style(Tone::Cyan) })]];
    let body = lines_of(f.diff@).map_values(|l: Seq<char>| seq![(l, fg_style(diff_line_tone(l)))]);
    let blank = seq![Seq::<(Seq<char>, TextStyle)>::empty()];
    lemma_count_toned_append(head + body, blank, Tone::Green);
    lemma_count_toned_append(head + body, blank, Tone::Red);
    lemma_count_toned_append(head, body, Tone::Green);
    lemma_count_toned_append(head, body, Tone::Red);
    assert(head.drop_last() =~= Seq::<Seq<(Seq<char>, TextStyle)>>::empty());
    assert(blank.drop_last() =~= Seq::<Seq<(Seq<char>, TextStyle)>>::empty());
    assert(count_toned(Seq::<Seq<(Seq<char>, TextStyle)>>::empty(), Tone::Green) == 0);
    assert(count_toned(Seq::<Seq<(Seq<char>, TextStyle)>>::empty(), Tone::Red) == 0);
    assert(head.last()[0].1.fg == Tone::Cyan);
    assert(count_toned(head, Tone::Green) == 0);
    assert(count_toned(head, Tone::Red) == 0);
    assert(count_toned(blank, Tone::Green) == 0);
    assert(count_toned(blank, Tone::Red) == 0);
    assert(file_view(f) == head + body + blank);
    lemma_count_toned_body(lines_of(f.diff@));
}

/// The added and removed line counts of `diff_stats` are the numbers of
/// green and red lines that `diff_to_lines` shows.
pub proof fn lemma_stats_match_colours(files: Seq<FileDiff>)
    ensures
        count_toned(diff_view(files), Tone::Green) == diff_changes(files).0,
        count_toned(diff_view(files), Tone::Red) == diff_changes(files).1,
    decreases files.len(),
{
    if files.len() > 0 {
        lemma_stats_match_colours(files.drop_last());
        lemma_count_toned_append(diff_view(files.drop_last()), file_view(files.last()), Tone::Green);
        lemma_count_toned_append(diff_view(files.drop_last()), file_view(files.last()), Tone::Red);
        lemma_count_toned_file(files.last());
    }
}

/// The lines of a merge request's diff.
pub fn diff_to_lines(diff: &[FileDiff]) -> (r: Vec<StyledLine>)
    ensures
        r.deep_view() == diff_view(diff@),
{
    let mut out: Vec<StyledLine> = Vec::new();
    let mut i: usize = 0;
    assert(out.deep_view() =~= diff_view(diff@.take(0)));
    while i < diff.len()
        invariant
            i <= diff@.len(),
            out.deep_view() == diff_view(diff@.take(i as int)),
        decreases diff.len() - i,
    {
        assert(diff@.take(i + 1).drop_last() =~= diff@.take(i as int));
        push_file_lines(&mut out, &diff[i]);
        i = i + 1;
    }
    assert(diff@.take(i as int) =~= diff@);
    out
}

/// The width of the file list beside the diff: a quarter of the width,
/// at least 16 and at most 32 columns.
pub open spec fn sidebar_width_of(width: u16) -> u16 {
    let q = width / 4;
    if q < 16 {
        16
    } else if q > 32 {
        32
    } else {
        q
    }
}

/// The width of the file list beside the diff.
pub fn sidebar_width(width: u16) -> (w: u16)
    ensures
        w == sidebar_width_of(width),
{
    let q = width / 4;
    if q < 16 {
        16
    } else if q > 32 {
        32
    } else {
        q
    }
}

/// The title of the file list: the number of files, then the added and
/// removed line counts where there are any.
pub open spec fn sidebar_title(files: Seq<FileDiff>) -> Seq<char> {
    let (a, d) = diff_changes(files);
    if a > 0 || d > 0 {
        " Files ("@ + decimal(files.len()) + ")  +"@ + decimal(a) + "/-"@ + decimal(d)
    } else {
        " Files ("@ + decimal(files.len()) + ")"@
    }
}

/// The style of a file in the list: bold cyan for the current file, dark gray otherwise.
pub open spec fn sidebar_style(current: bool) -> TextStyle {
    if current {
        TextStyle { bold: true, ..fg_style(Tone::Cyan) }
    } else {
        fg_style(Tone::DarkGray)
    }
}

/// The row of file `i`: a marker (`▶ ` for the current file) and its new
/// path, cut to the name width.
pub open spec fn sidebar_row(files: Seq<FileDiff>, current: int, name_width: nat, i: int) -> Seq<
    (Seq<char>, TextStyle),
> {
    seq![
        (if i == current { "▶ "@ } else { "  "@ }, sidebar_style(i == current)),
        (truncated_path(files[i].new_path@, name_width), sidebar_style(i == current)),
    ]
}

/// The file list: its title in bold dark gray, then a row per file.
pub open spec fn sidebar_view(files: Seq<FileDiff>, current: int, name_width: nat) -> Seq<
    Seq<(Seq<char>, TextStyle)>,
> {
    seq![seq![(sidebar_title(files), TextStyle { bold: true, ..fg_style(Tone::DarkGray) })]] + Seq::new(
        files.len(),
        |i: int| sidebar_row(files, current, name_width, i),
    )
}

/// The file list beside the diff, for a list `inner_width` columns wide
/// (names take two columns less).
pub fn diff_sidebar(diff: &[FileDiff], current_file: usize, inner_width: u16) -> (r: Vec<StyledLine>)
    requires
        diff_line_total(diff@) <= usize::MAX,
    ensures
        r.deep_view() == sidebar_view(diff@, current_file as int, sat_sub16(inner_width, 2) as nat),
{
    let name_width = inner_width.saturating_sub(2) as usize;
    let (adds, dels) = diff_stats(diff);
    let mut title = owned(" Files (");
    push_decimal(&mut title, diff.len() as u64);
    if adds > 0 || dels > 0 {
        push_str(&mut title, ")  +");
        push_decimal(&mut title, adds as u64);
        push_str(&mut title, "/-");
        push_decimal(&mut title, dels as u64);
    } else {
        push_str(&mut title, ")");
    }
    let mut head = empty_line();
    push_span(&mut head, StyledSpan { text: title, style: fg_bold(Tone::DarkGray) });
    let mut out: Vec<StyledLine> = Vec::new();
    push_line(&mut out, head);
    let ghost rows = Seq::new(diff@.len(), |i: int| sidebar_row(diff@, current_file as int, name_width as nat, i));
    let mut i: usize = 0;
    while i < diff.len()
        invariant
            i <= diff@.len(),
            name_width == sat_sub16(inner_width, 2),
            rows == Seq::new(diff@.len(), |i: int| sidebar_row(diff@, current_file as int, name_width as nat, i)),
            out.deep_view() == seq![
                seq![(sidebar_title(diff@), TextStyle { bold: true, ..fg_style(Tone::DarkGray) })],
            ] + rows.take(i as int),
        decreases diff.len() - i,
    {
        let name = truncate_path(diff[i].new_path.as_str(), name_width);
        let style = if i == current_file {
            fg_bold(Tone::Cyan)
        } else {
            fg(Tone::DarkGray)
        };
        let marker = if i == current_file {
            "▶ "
        } else {
            "  "
        };
        let mut row = empty_line();
        push_span(&mut row, span(marker, style));
        push_span(&mut row, StyledSpan { text: name, style });
        push_line(&mut out, row);
        assert(row.deep_view() =~= rows[i as int]);
        assert(rows.take(i + 1) =~= rows.take(i as int).push(rows[i as int]));
        i = i + 1;
    }
    assert(rows.take(i as int) =~= rows);
    out
}

/// The bar under the detail screen: the error in red, else the status
/// message in green, else the key hints of the tab shown.
pub open spec fn detail_bar_spans(a: App, tab: DetailTab) -> Seq<(Seq<char>, TextStyle)> {
    if a.error is Some {
        seq![(" "@ + a.error->0@, fg_style(Tone::Red))]
    } else if a.status_msg is Some {
        seq![(" "@ + a.status_msg->0@, fg_style(Tone::Green))]
    } else if tab == DetailTab::Description {
        hint_spans(
            seq![
                ("o"@, "open"@),
                ("m"@, "merge"@),
                ("a"@, "approve"@),
                ("c"@, "checkout"@),
                ("b"@, "browser"@),
                ("[ ]"@, "switch tabs"@),
                ("?"@, "help"@),
            ],
        )
    } else {
        hint_spans(
            seq![
                ("Ctrl+D/U"@, "half page"@),
                ("Tab/⇧Tab"@, "next/prev file"@),
                ("[ ]"@, "switch tabs"@),
                ("?"@, "help"@),
            ],
        )
    }
}

/// The bar under the detail screen, and whether `loading… ` shows at its
/// right (with the hints, while the diff loads).
pub fn detail_bar(app: &App, tab: DetailTab) -> (r: (StyledLine, bool))
    ensures
        r.0.deep_view() == detail_bar_spans(*app, tab),
        r.1 == (app.error is None && app.status_msg is None && app.diff_loading),
{
    match &app.error {
        Some(err) => {
            let mut text = owned(" ");
            push_str(&mut text, err.as_str());
            let mut line = empty_line();
            push_span(&mut line, StyledSpan { text, style: fg(Tone::Red) });
            assert(line.deep_view() =~= detail_bar_spans(*app, tab));
            return (line, false);
        },
        None => {},
    }
    match &app.status_msg {
        Some(msg) => {
            let mut text = owned(" ");
            push_str(&mut text, msg.as_str());
            let mut line = empty_line();
            push_span(&mut line, StyledSpan { text, style: fg(Tone::Green) });
            assert(line.deep_view() =~= detail_bar_spans(*app, tab));
            return (line, false);
        },
        None => {},
    }
    let line = match tab {
        DetailTab::Description => {
            let hints: [(&str, &str); 7] = [
                ("o", "open"),
                ("m", "merge"),
                ("a", "approve"),
                ("c", "checkout"),
                ("b", "browser"),
                ("[ ]", "switch tabs"),
                ("?", "help"),
            ];
            let r = hints_line(&hints);
            assert(hints@.map_values(|h: (&str, &str)| (h.0@, h.1@)) =~= seq![
                ("o"@, "open"@),
                ("m"@, "merge"@),
                ("a"@, "approve"@),
                ("c"@, "checkout"@),
                ("b"@, "browser"@),
                ("[ ]"@, "switch tabs"@),
                ("?"@, "help"@),
            ]);
            r
        },
        DetailTab::Diff => {
            let hints: [(&str, &str); 4] = [
                ("Ctrl+D/U", "half page"),
                ("Tab/⇧Tab", "next/prev file"),
                ("[ ]", "switch tabs"),
                ("?", "help"),
            ];
            let r = hints_line(&hints);
            assert(hints@.map_values(|h: (&str, &str)| (h.0@, h.1@)) =~= seq![
                ("Ctrl+D/U"@, "half page"@),
                ("Tab/⇧Tab"@, "next/prev file"@),
                ("[ ]"@, "switch tabs"@),
                ("?"@, "help"@),
            ]);
            r
        },
    };
    (line, app.diff_loading)
}

/// The value of the first entry with the given key.
pub open spec fn entry_for<V>(entries: Seq<((u64, u64), V)>, key: (u64, u64)) -> Option<V>
    decreases entries.len(),
{
    if entries.len() == 0 {
        None
    } else if entries[0].0 == key {
        Some(entries[0].1)
    } else {
        entry_for(entries.skip(1), key)
    }
}

/// The value of the first entry keyed by (project id, iid).
pub fn find_entry<V>(entries: &Vec<((u64, u64), V)>, project_id: u64, iid: u64) -> (r: Option<&V>)
    ensures
        match entry_for(entries@, (project_id, iid)) {
            Some(v) => r matches Some(x) && *x == v,
            None => r is None,
        },
{
    let mut i: usize = 0;
    assert(entries@.skip(0) =~= entries@);
    while i < entries.len()
        invariant
            i <= entries@.len(),
            entry_for(entries@, (project_id, iid)) == entry_for(entries@.skip(i as int), (project_id, iid)),
        decreases entries.len() - i,
    {
        assert(entries@.skip(i as int).skip(1) =~= entries@.skip(i + 1));
        let k = &entries[i].0;
        if k.0 == project_id && k.1 == iid {
            return Some(&entries[i].1);
        }
        i = i + 1;
    }
    None
}

/// The approvers of a merge request as loaded (none where none were loaded).
pub open spec fn approvers_of(a: App, mr: MergeRequest) -> Seq<User> {
    match entry_for(a.approvals@, (mr.project_id, mr.iid)) {
        Some(v) => v@,
        None => seq![],
    }
}

/// The information row of a merge request, with the approvers and the
/// pipeline loaded for it.
pub fn detail_info_line(app: &App, mr: &MergeRequest) -> (r: StyledLine)
    ensures
        r.deep_view() == info_spans(*mr, approvers_of(*app, *mr), entry_for(app.pipelines@, (mr.project_id, mr.iid))),
{
    let pipeline = find_entry(&app.pipelines, mr.project_id, mr.iid);
    match find_entry(&app.approvals, mr.project_id, mr.iid) {
        Some(users) => info_line(mr, users, pipeline),
        None => {
            let none: Vec<User> = Vec::new();
            info_line(mr, &none, pipeline)
        },
    }
}

/// What the diff tab shows instead of the diff: a note while it loads, or
/// when it has no files; `None` when there is a diff to show.
pub fn diff_placeholder(app: &App) -> (r: Option<&'static str>)
    ensures
        match r {
            Some(t) => if app.diff_loading {
                t@ == " Loading diff…"@
            } else {
                app.current_diff@.len() == 0 && t@ == " No changes found."@
            },
            None => !app.diff_loading && app.current_diff@.len() > 0,
        },
{
    if app.diff_loading {
        Some(" Loading diff…")
    } else if app.current_diff.len() == 0 {
        Some(" No changes found.")
    } else {
        None
    }
}

} // verus!
