use mrtui::config::Config;
use mrtui::gitlab::types::{FileDiff, MergeRequest, Milestone, Note, Pipeline, References, User};
use mrtui::style::{StyledLine, TextStyle, Tone};
use mrtui::tui::app::{App, AppCommand, AppView};
use mrtui::tui::keys::{Key, KeyInput};
use mrtui::tui::views::detail_view::{
    branch_line, comments_lines, description_lines, description_tab_lines, detail_bar, detail_info_line, diff_line_color,
    diff_placeholder, diff_sidebar, diff_to_lines, find_entry, footer_line, info_line,
    sidebar_width, tab_bar_line, title_line,
};
use mrtui::tui::views::mr_detail::{
    detail_key_fits, diff_fits, file_from_scroll, file_line_offsets, handle_key, pipeline_status_override, truncate_path,
    DetailState, DetailTab,
};

fn key(k: Key) -> KeyInput {
    KeyInput { key: k, ctrl: false }
}

fn ctrl(c: char) -> KeyInput {
    KeyInput { key: Key::Char(c), ctrl: true }
}

fn plain() -> TextStyle {
    TextStyle { fg: Tone::Default, bold: false, italic: false, crossed_out: false, underlined: false }
}

fn with_fg(t: Tone) -> TextStyle {
    TextStyle { fg: t, ..plain() }
}

fn flat(l: &StyledLine) -> Vec<(String, TextStyle)> {
    l.iter().map(|s| (s.text.clone(), s.style)).collect()
}

fn text(l: &StyledLine) -> String {
    l.iter().map(|s| s.text.as_str()).collect()
}

fn user(u: &str) -> User {
    User { username: u.to_string(), name: u.to_string() }
}

fn mr() -> MergeRequest {
    MergeRequest {
        iid: 42,
        project_id: 9,
        references: References { full: "team/app!42".to_string() },
        title: "Speed up search".to_string(),
        description: Some("Some *text*".to_string()),
        state: "opened".to_string(),
        source_branch: "fast-search".to_string(),
        target_branch: "main".to_string(),
        author: user("erin"),
        reviewers: vec![],
        detailed_merge_status: "mergeable".to_string(),
        draft: false,
        web_url: "https://gitlab.com/team/app/-/merge_requests/42".to_string(),
        updated_at: "2024-06-30T08:00:00Z".to_string(),
        labels: vec![],
        milestone: None,
        pipeline: None,
        head_pipeline: None,
    }
}

fn file(path: &str, diff: &str) -> FileDiff {
    FileDiff {
        old_path: path.to_string(),
        new_path: path.to_string(),
        diff: diff.to_string(),
        new_file: false,
        deleted_file: false,
        renamed_file: false,
    }
}

fn app_on_detail() -> App {
    let mut c = Config::default();
    c.gitlab_url = "https://gitlab.com".to_string();
    c.access_token = "t".to_string();
    let mut a = App::new(c, true, "/repo".to_string());
    a.view = AppView::MrDetail;
    a.current_mr = Some(mr());
    a
}

#[test]
fn tabs_alternate() {
    assert_eq!(DetailTab::Description.next(), DetailTab::Diff);
    assert_eq!(DetailTab::Diff.next(), DetailTab::Description);
    assert_eq!(DetailTab::Diff.prev(), DetailTab::Description);
    assert_eq!(DetailTab::Description.next().prev(), DetailTab::Description);
    assert_eq!(DetailTab::Description.label(), "Description");
    assert_eq!(DetailTab::Diff.label(), "Diff");
}

#[test]
fn detail_state_resets() {
    let mut s = DetailState { tab: DetailTab::Diff, scroll: 7 };
    s.reset_for_mr(&mr());
    assert_eq!(s, DetailState::new());
    assert_eq!(s, DetailState { tab: DetailTab::Description, scroll: 0 });
}

#[test]
fn file_offsets_and_current_file() {
    let diff = vec![file("a", "+1\n+2"), file("b", ""), file("c", "x\ny\nz")];
    let offsets = file_line_offsets(&diff);
    assert_eq!(offsets, vec![0, 4, 6]);
    assert_eq!(file_from_scroll(&offsets, 0), 0);
    assert_eq!(file_from_scroll(&offsets, 3), 0);
    assert_eq!(file_from_scroll(&offsets, 4), 1);
    assert_eq!(file_from_scroll(&offsets, 5), 1);
    assert_eq!(file_from_scroll(&offsets, 100), 2);
    assert_eq!(file_from_scroll(&[], 3), 0);
    assert_eq!(file_from_scroll(&[2, 5], 1), 0);
}

#[test]
fn offsets_point_at_file_headers() {
    let diff = vec![file("a", "+1\n+2"), file("b", ""), file("c", "x\ny\nz")];
    let lines = diff_to_lines(&diff);
    let offsets = file_line_offsets(&diff);
    for (i, o) in offsets.iter().enumerate() {
        assert_eq!(text(&lines[*o as usize]), format!(" {}", diff[i].new_path));
        assert_eq!(file_from_scroll(&offsets, *o), i);
    }
}

#[test]
fn truncating_paths() {
    assert_eq!(truncate_path("src/main.rs", 0), "");
    assert_eq!(truncate_path("src/main.rs", 11), "src/main.rs");
    assert_eq!(truncate_path("src/very/deep/main.rs", 12), "…/main.rs");
    assert_eq!(truncate_path("src/a_really_long_file_name.rs", 10), "…e_name.rs");
    assert!(truncate_path("src/a_really_long_file_name.rs", 10).chars().count() <= 10);
    assert_eq!(truncate_path("src/deep/dir/file.rs", 10), "…/file.rs");
    assert_eq!(truncate_path("ééééé/ééééé", 4), "…ééé");
    assert_eq!(truncate_path("ééé/é", 5), "ééé/é");
}

#[test]
fn pipeline_overrides() {
    assert!(pipeline_status_override(None).is_none());
    let p = Pipeline { status: "failed".to_string() };
    assert_eq!(pipeline_status_override(Some(&p)), Some(("Build Failed".to_string(), Tone::Red)));
    let p = Pipeline { status: "running".to_string() };
    assert_eq!(pipeline_status_override(Some(&p)), Some(("Build Running".to_string(), Tone::LightBlue)));
    for s in ["pending", "created", "waiting_for_resource", "preparing"] {
        let p = Pipeline { status: s.to_string() };
        assert_eq!(pipeline_status_override(Some(&p)), Some(("Build Pending".to_string(), Tone::Yellow)));
    }
    let p = Pipeline { status: "success".to_string() };
    assert!(pipeline_status_override(Some(&p)).is_none());
}

#[test]
fn title_row() {
    let mut m = mr();
    m.draft = true;
    m.state = "merged".to_string();
    assert_eq!(
        flat(&title_line(&m)),
        vec![
            (" ".to_string(), plain()),
            ("[Draft] ".to_string(), with_fg(Tone::DarkGray)),
            ("Speed up search".to_string(), TextStyle { bold: true, ..with_fg(Tone::White) }),
            ("  ".to_string(), plain()),
            ("[merged]".to_string(), with_fg(Tone::Magenta)),
        ]
    );
    m.state = "closed".to_string();
    assert_eq!(flat(&title_line(&m))[4].1, with_fg(Tone::Red));
    assert_eq!(flat(&title_line(&mr()))[3].1, with_fg(Tone::Green));
}

#[test]
fn info_row() {
    let mut m = mr();
    m.reviewers = vec![user("fay"), user("gus")];
    m.labels = vec!["bug".to_string(), "UI".to_string()];
    m.milestone = Some(Milestone { title: "v2".to_string() });
    let approvers = vec![user("hal")];
    let line = info_line(&m, &approvers, None);
    assert_eq!(
        text(&line),
        "  Author @erin → @fay, @gus   Status Mergeable   Approved by @hal   Labels [bug] [UI]   Milestone v2"
    );
    let p = Pipeline { status: "failed".to_string() };
    let line = info_line(&mr(), &vec![], Some(&p));
    assert_eq!(text(&line), "  Author @erin   Status Build Failed");
    assert_eq!(flat(&line)[3].1, with_fg(Tone::Red));
    let mut n = mr();
    n.detailed_merge_status = "discussions_not_resolved".to_string();
    assert_eq!(flat(&info_line(&n, &vec![], None))[3], ("Open Discussions".to_string(), with_fg(Tone::Yellow)));
}

#[test]
fn info_row_from_loaded_details() {
    let mut a = app_on_detail();
    a.approvals = vec![((9, 41), vec![user("x")]), ((9, 42), vec![user("ivy")])];
    a.pipelines = vec![((9, 42), Pipeline { status: "running".to_string() })];
    let m = mr();
    assert_eq!(
        text(&detail_info_line(&a, &m)),
        "  Author @erin   Status Build Running   Approved by @ivy"
    );
    assert_eq!(find_entry(&a.approvals, 9, 41).unwrap()[0].username, "x");
    assert!(find_entry(&a.pipelines, 9, 1).is_none());
}

#[test]
fn branch_tabs_and_footer() {
    assert_eq!(text(&branch_line(&mr())), "  Branch fast-search → main");
    let tabs = flat(&tab_bar_line(true, DetailTab::Diff));
    assert_eq!(tabs[1], ("Description".to_string(), with_fg(Tone::DarkGray)));
    assert_eq!(
        tabs[3],
        ("Diff (loading…)".to_string(), TextStyle { bold: true, underlined: true, ..with_fg(Tone::Cyan) })
    );
    assert_eq!(flat(&tab_bar_line(false, DetailTab::Description))[3].0, "Diff");
    assert_eq!(flat(&footer_line(&mr())), vec![(" team/app!42  ·  2024-06-30".to_string(), with_fg(Tone::DarkGray))]);
}

#[test]
fn description_or_a_note() {
    let (lines, _) = description_lines(&mr());
    assert_eq!(text(&lines[0]), "Some text");
    let mut m = mr();
    m.description = None;
    let (lines, _) = description_lines(&m);
    assert_eq!(flat(&lines[0]), vec![("No description.".to_string(), TextStyle { italic: true, ..plain() })]);
}

#[test]
fn diff_lines_and_colors() {
    let mut f = file("new.rs", "@@ -0,0 +1 @@\n+fn x() {}");
    f.new_file = true;
    let mut g = file("old.rs", "-gone\n--- a\n ctx");
    g.old_path = "was.rs".to_string();
    g.renamed_file = true;
    let lines = diff_to_lines(&[f, g]);
    let t: Vec<String> = lines.iter().map(text).collect();
    assert_eq!(
        t,
        vec![" [new] new.rs", "@@ -0,0 +1 @@", "+fn x() {}", "", " [ren] was.rs → old.rs", "-gone", "--- a", " ctx", ""]
    );
    assert_eq!(flat(&lines[0])[0].1, TextStyle { bold: true, ..with_fg(Tone::Cyan) });
    assert_eq!(diff_line_color("+x"), Tone::Green);
    assert_eq!(diff_line_color("+++ b"), Tone::DarkGray);
    assert_eq!(diff_line_color("-x"), Tone::Red);
    assert_eq!(diff_line_color("--- a"), Tone::DarkGray);
    assert_eq!(diff_line_color("@@ x"), Tone::Cyan);
    assert_eq!(diff_line_color(" x"), Tone::DarkGray);
    let mut d = file("gone.rs", "");
    d.old_path = "gone_old.rs".to_string();
    d.deleted_file = true;
    assert_eq!(text(&diff_to_lines(&[d])[0]), " [del] gone_old.rs");
}

#[test]
fn file_list_beside_the_diff() {
    assert_eq!(sidebar_width(40), 16);
    assert_eq!(sidebar_width(100), 25);
    assert_eq!(sidebar_width(400), 32);
    let diff = vec![file("src/lib.rs", "+a\n-b\n+c"), file("src/some/deep/module.rs", "")];
    let rows = diff_sidebar(&diff, 1, 16);
    let t: Vec<String> = rows.iter().map(text).collect();
    assert_eq!(t, vec![" Files (2)  +2/-1", "  src/lib.rs", "▶ …/module.rs"]);
    assert_eq!(flat(&rows[2])[0].1, TextStyle { bold: true, ..with_fg(Tone::Cyan) });
    assert_eq!(flat(&rows[1])[0].1, with_fg(Tone::DarkGray));
    let quiet = diff_sidebar(&[file("a", " ctx")], 0, 20);
    assert_eq!(text(&quiet[0]), " Files (1)");
}

#[test]
fn detail_bar_variants() {
    let mut a = app_on_detail();
    let (line, loading) = detail_bar(&a, DetailTab::Description);
    assert_eq!(flat(&line)[1].0, "[o] open");
    assert!(!loading);
    a.diff_loading = true;
    let (line, loading) = detail_bar(&a, DetailTab::Diff);
    assert_eq!(flat(&line)[1].0, "[Ctrl+D/U] half page");
    assert!(loading);
    a.status_msg = Some("ok".to_string());
    let (line, loading) = detail_bar(&a, DetailTab::Diff);
    assert_eq!(flat(&line), vec![(" ok".to_string(), with_fg(Tone::Green))]);
    assert!(!loading);
    a.error = Some("bad".to_string());
    assert_eq!(flat(&detail_bar(&a, DetailTab::Diff).0), vec![(" bad".to_string(), with_fg(Tone::Red))]);
}

#[test]
fn diff_placeholders() {
    let mut a = app_on_detail();
    assert_eq!(diff_placeholder(&a), Some(" No changes found."));
    a.diff_loading = true;
    assert_eq!(diff_placeholder(&a), Some(" Loading diff…"));
    a.diff_loading = false;
    a.current_diff = vec![file("a", "")];
    assert_eq!(diff_placeholder(&a), None);
}

#[test]
fn detail_keys_scroll_and_switch_tabs() {
    let mut a = app_on_detail();
    let mut s = DetailState::new();
    handle_key(&mut a, &mut s, key(Key::Down));
    handle_key(&mut a, &mut s, key(Key::Char('j')));
    assert_eq!(s.scroll, 2);
    handle_key(&mut a, &mut s, ctrl('d'));
    assert_eq!(s.scroll, 12);
    handle_key(&mut a, &mut s, ctrl('u'));
    assert_eq!(s.scroll, 2);
    handle_key(&mut a, &mut s, key(Key::PageDown));
    assert_eq!(s.scroll, 22);
    handle_key(&mut a, &mut s, key(Key::PageUp));
    handle_key(&mut a, &mut s, key(Key::Up));
    assert_eq!(s.scroll, 1);
    handle_key(&mut a, &mut s, key(Key::Char('u')));
    assert_eq!(s.scroll, 1);
    let cmds = handle_key(&mut a, &mut s, key(Key::Char(']')));
    assert_eq!(s, DetailState { tab: DetailTab::Diff, scroll: 0 });
    assert_eq!(cmds, vec![AppCommand::LoadDiff(9, 42)]);
    assert!(a.diff_loading);
    let cmds = handle_key(&mut a, &mut s, key(Key::Char('[')));
    assert_eq!(s.tab, DetailTab::Description);
    assert!(cmds.is_empty());
}

#[test]
fn detail_keys_jump_between_files() {
    let mut a = app_on_detail();
    a.current_diff = vec![file("a", "+1\n+2"), file("b", ""), file("c", "x")];
    let mut s = DetailState { tab: DetailTab::Diff, scroll: 1 };
    handle_key(&mut a, &mut s, key(Key::Tab));
    assert_eq!(s.scroll, 4);
    handle_key(&mut a, &mut s, key(Key::Tab));
    assert_eq!(s.scroll, 6);
    handle_key(&mut a, &mut s, key(Key::Tab));
    assert_eq!(s.scroll, 6);
    handle_key(&mut a, &mut s, key(Key::BackTab));
    assert_eq!(s.scroll, 4);
    handle_key(&mut a, &mut s, key(Key::BackTab));
    handle_key(&mut a, &mut s, key(Key::BackTab));
    assert_eq!(s.scroll, 0);
}

#[test]
fn detail_keys_merge_approve_and_open() {
    let mut a = app_on_detail();
    let mut s = DetailState::new();
    assert_eq!(handle_key(&mut a, &mut s, key(Key::Char('m'))), vec![AppCommand::Merge(9, 42)]);
    assert_eq!(handle_key(&mut a, &mut s, key(Key::Char('a'))), vec![AppCommand::Approve(9, 42)]);
    assert_eq!(handle_key(&mut a, &mut s, key(Key::Char('b'))), vec![AppCommand::OpenInBrowser]);
    assert_eq!(handle_key(&mut a, &mut s, key(Key::Char('o'))), vec![AppCommand::OpenMedia]);
    a.current_mr.as_mut().unwrap().detailed_merge_status = "not_approved".to_string();
    assert!(handle_key(&mut a, &mut s, key(Key::Char('m'))).is_empty());
    assert_eq!(a.error.as_deref(), Some("Cannot merge: Needs Approval"));
    a.connected = false;
    a.error = None;
    assert!(handle_key(&mut a, &mut s, key(Key::Char('a'))).is_empty());
    assert_eq!(a.error.as_deref(), Some("Not connected"));
}

#[test]
fn detail_escape_goes_back_to_the_list() {
    let mut a = app_on_detail();
    a.current_diff = vec![file("a", "")];
    a.error = Some("x".to_string());
    let mut s = DetailState { tab: DetailTab::Diff, scroll: 5 };
    assert!(handle_key(&mut a, &mut s, key(Key::Esc)).is_empty());
    assert_eq!(a.view, AppView::MrList);
    assert!(a.current_mr.is_none() && a.current_diff.is_empty() && a.error.is_none());
    assert_eq!(s, DetailState { tab: DetailTab::Diff, scroll: 0 });
}

#[test]
fn diffs_that_fit_a_u16() {
    let small = vec![file("a", "+1\n+2")];
    assert!(diff_fits(&small));
    let big_body = "x\n".repeat(70000);
    let big = vec![file("a", &big_body)];
    // 70000 lines count as 70000 mod 65536 = 4464, plus header and blank line.
    assert!(diff_fits(&big));
    assert_eq!(file_line_offsets(&vec![file("a", &big_body), file("b", "")]), vec![0, 4466]);
    let many: Vec<FileDiff> = (0..33000).map(|_| file("f", "")).collect();
    assert!(!diff_fits(&many));
    let mut a = app_on_detail();
    a.current_diff = many;
    let s = DetailState { tab: DetailTab::Diff, scroll: 0 };
    assert!(!detail_key_fits(&a, &s, key(Key::Tab)));
    assert!(detail_key_fits(&a, &s, key(Key::Down)));
}

fn note(who: &str, body: &str, system: bool) -> Note {
    Note {
        body: body.to_string(),
        author: User { username: who.to_string(), name: who.to_string() },
        created_at: "2024-03-05T09:30:00Z".to_string(),
        system,
    }
}

#[test]
fn comments_show_people_and_skip_system_notes() {
    let ls = comments_lines(&vec![
        note("bob", "Tested it\nShip it", false),
        note("gitlab", "added 1 commit", true),
        note("carol", "Thanks", false),
    ]);
    let texts: Vec<String> = ls.iter().map(text).collect();
    assert_eq!(
        texts,
        vec![" Comments", "@bob  2024-03-05", "  Tested it", "  Ship it", "", "@carol  2024-03-05", "  Thanks", ""]
    );
    assert!(ls[0][0].style.bold);
    assert_eq!(ls[1][0].style.fg, Tone::Cyan);
    assert_eq!(ls[1][1].style.fg, Tone::DarkGray);
}

#[test]
fn no_comments_no_section() {
    assert!(comments_lines(&vec![]).is_empty());
    assert!(comments_lines(&vec![note("gitlab", "changed the description", true)]).is_empty());
}

#[test]
fn the_description_tab_ends_with_the_comments() {
    let m = mr();
    let (desc, _) = description_lines(&m);
    let all = description_tab_lines(&m, &vec![note("bob", "Nice", false)]);
    assert_eq!(all.len(), desc.len() + 4);
    assert_eq!(text(&all[desc.len()]), " Comments");
    assert_eq!(text(&all[desc.len() + 2]), "  Nice");
    assert_eq!(description_tab_lines(&m, &vec![]).len(), desc.len());
}

fn changed(path: &str, diff: &str) -> FileDiff {
    FileDiff {
        old_path: path.to_string(),
        new_path: path.to_string(),
        diff: diff.to_string(),
        new_file: false,
        deleted_file: false,
        renamed_file: false,
    }
}

#[test]
fn diff_lines_follow_the_offsets_and_the_counts() {
    let files = vec![
        changed("a.rs", "@@ -1 +1 @@\n-old\n+new\n+more"),
        changed("b.rs", "+++ b/b.rs\n--- a/b.rs\n context\n-gone"),
    ];
    let ls = diff_to_lines(&files);
    let offs = file_line_offsets(&files);
    assert_eq!(offs, vec![0, 6]);
    assert_eq!(ls.len(), 12);
    assert_eq!(text(&ls[0]), " a.rs");
    assert_eq!(text(&ls[2]), "-old");
    assert_eq!(text(&ls[5]), "");
    assert_eq!(text(&ls[6]), " b.rs");
    assert_eq!(text(&ls[10]), "-gone");
    assert_eq!(text(&ls[11]), "");
    let green = ls.iter().filter(|l| !l.is_empty() && l[0].style.fg == Tone::Green).count();
    let red = ls.iter().filter(|l| !l.is_empty() && l[0].style.fg == Tone::Red).count();
    assert_eq!((green, red), mrtui::gitlab::types::diff_stats(&files));
    assert_eq!((green, red), (2, 2));
}
