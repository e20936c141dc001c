use mrtui::config::Config;
use mrtui::gitlab::types::{MergeRequest, Milestone, Pipeline, References, User};
use mrtui::style::{StyledLine, TextStyle, Tone};
use mrtui::tui::app::{App, AppCommand, AppView};
use mrtui::tui::area::{centered_rect, right_aligned, Area};
use mrtui::tui::keys::{Key, KeyInput};
use mrtui::tui::views::mr_list::{
    build_row, color_from_str, count_label, fetching_note, handle_key, header_count_width,
    header_server, hints_line, label_color, labels_line, list_bar, pipeline_dot_color,
    status_color,
};

fn key(k: Key) -> KeyInput {
    KeyInput { key: k, ctrl: false }
}

fn plain() -> TextStyle {
    TextStyle { fg: Tone::Default, bold: false, italic: false, crossed_out: false, underlined: false }
}

fn with_fg(t: Tone) -> TextStyle {
    TextStyle { fg: t, ..plain() }
}

fn flat(l: &StyledLine) -> Vec<(String, TextStyle)> {
    l.iter().map(|s| (s.text.clone(), s.style)).collect()
}

fn mr(iid: u64, title: &str) -> MergeRequest {
    MergeRequest {
        iid,
        project_id: 3,
        references: References { full: format!("g/p!{iid}") },
        title: title.to_string(),
        description: None,
        state: "opened".to_string(),
        source_branch: "topic".to_string(),
        target_branch: "main".to_string(),
        author: User { username: "dave".to_string(), name: "Dave".to_string() },
        reviewers: vec![],
        detailed_merge_status: "mergeable".to_string(),
        draft: false,
        web_url: String::new(),
        updated_at: "2024-01-01".to_string(),
        labels: vec![],
        milestone: None,
        pipeline: None,
        head_pipeline: None,
    }
}

fn app(mrs: Vec<MergeRequest>) -> App {
    let mut c = Config::default();
    c.gitlab_url = "https://gitlab.example.com".to_string();
    c.access_token = "t".to_string();
    let mut a = App::new(c, true, "/repo".to_string());
    a.mrs = mrs;
    a
}

#[test]
fn label_colors_are_fixed_per_name() {
    assert_eq!(label_color("bug"), Tone::Rgb(50, 205, 50));
    assert_eq!(label_color("feature"), Tone::Rgb(255, 20, 147));
    assert_eq!(label_color("backend"), Tone::Rgb(255, 160, 90));
    assert_eq!(label_color("UI"), Tone::Rgb(0, 255, 127));
    assert_eq!(label_color(""), Tone::Rgb(50, 205, 50));
    assert_eq!(label_color("bug"), label_color("bug"));
}

#[test]
fn labels_line_caps_the_labels() {
    let labels = vec!["bug".to_string(), "UI".to_string(), "feature".to_string()];
    assert_eq!(
        flat(&labels_line(&labels, 2)),
        vec![
            ("[bug]".to_string(), with_fg(label_color("bug"))),
            (" ".to_string(), plain()),
            ("[UI]".to_string(), with_fg(label_color("UI"))),
            (" +1".to_string(), with_fg(Tone::DarkGray)),
        ]
    );
    assert_eq!(flat(&labels_line(&labels, 3)).len(), 5);
    assert!(labels_line(&[], 2).is_empty());
    assert_eq!(flat(&labels_line(&labels, 0)), vec![(" +3".to_string(), with_fg(Tone::DarkGray))]);
}

#[test]
fn colors_by_name() {
    assert_eq!(color_from_str("cyan"), Tone::Cyan);
    assert_eq!(color_from_str("green"), Tone::Green);
    assert_eq!(color_from_str("blue"), Tone::Blue);
    assert_eq!(color_from_str("magenta"), Tone::Magenta);
    assert_eq!(color_from_str("red"), Tone::Red);
    assert_eq!(color_from_str("yellow"), Tone::Yellow);
    assert_eq!(color_from_str("dark_gray"), Tone::White);
}

#[test]
fn pipeline_dots() {
    let mut m = mr(1, "t");
    assert_eq!(pipeline_dot_color(&m), Tone::DarkGray);
    m.pipeline = Some(Pipeline { status: "running".to_string() });
    assert_eq!(pipeline_dot_color(&m), Tone::Rgb(255, 140, 0));
    m.head_pipeline = Some(Pipeline { status: "failed".to_string() });
    assert_eq!(pipeline_dot_color(&m), Tone::Red);
    m.head_pipeline = Some(Pipeline { status: "success".to_string() });
    assert_eq!(pipeline_dot_color(&m), Tone::Green);
    m.head_pipeline = Some(Pipeline { status: "manual".to_string() });
    assert_eq!(pipeline_dot_color(&m), Tone::DarkGray);
}

#[test]
fn status_colors() {
    let mut m = mr(1, "t");
    assert_eq!(status_color(&m), Tone::Green);
    for (s, t) in [
        ("not_approved", Tone::Yellow),
        ("blocked_status", Tone::Red),
        ("merge_request_blocked", Tone::Red),
        ("discussions_not_resolved", Tone::Red),
        ("ci_still_running", Tone::Yellow),
        ("checking", Tone::White),
    ] {
        m.detailed_merge_status = s.to_string();
        assert_eq!(status_color(&m), t);
    }
    m.draft = true;
    assert_eq!(status_color(&m), Tone::DarkGray);
}

#[test]
fn hints_line_formats_keys() {
    assert_eq!(
        flat(&hints_line(&[("c", "checkout"), ("?", "help")])),
        vec![
            (" ".to_string(), plain()),
            ("[c] checkout".to_string(), with_fg(Tone::DarkGray)),
            ("  ".to_string(), plain()),
            ("[?] help".to_string(), with_fg(Tone::DarkGray)),
        ]
    );
    assert_eq!(flat(&hints_line(&[])), vec![(" ".to_string(), plain())]);
}

#[test]
fn rows_show_the_merge_request() {
    let mut m = mr(1, "Add cache");
    m.draft = true;
    m.labels = vec!["bug".to_string()];
    m.milestone = Some(Milestone { title: "M1".to_string() });
    let r = build_row(&m);
    assert_eq!(r.title, "Add cache");
    assert_eq!(r.title_tone, Tone::DarkGray);
    assert_eq!(r.author, "dave");
    assert_eq!(r.milestone, "M1");
    assert_eq!(r.status, "Draft");
    assert_eq!(r.status_tone, Tone::DarkGray);
    assert_eq!(r.dot, Tone::DarkGray);
    assert_eq!(r.labels.len(), 1);
}

#[test]
fn header_parts() {
    assert_eq!(header_server("https://gitlab.example.com"), "gitlab.example.com");
    assert_eq!(header_server("http://x"), "http://x");
    assert_eq!(count_label(12), "12 open MRs");
    assert_eq!(header_count_width(11, 80), 12);
    assert_eq!(header_count_width(11, 25), 5);
    assert_eq!(header_count_width(11, 10), 0);
}

#[test]
fn list_bar_variants() {
    let mut a = app(vec![mr(1, "alpha"), mr(2, "beta")]);
    assert_eq!(flat(&list_bar(&a).0)[1].0, "[c] checkout");
    a.status_msg = Some("Approved!".to_string());
    assert_eq!(flat(&list_bar(&a).0), vec![(" Approved!".to_string(), with_fg(Tone::Green))]);
    a.error = Some("boom".to_string());
    assert_eq!(flat(&list_bar(&a).0), vec![(" boom".to_string(), with_fg(Tone::Red))]);
    a.local_search = "alp".to_string();
    assert_eq!(flat(&list_bar(&a).0)[2].0, "  (1 matches)");
    a.local_search_active = true;
    let bar = flat(&list_bar(&a).0);
    assert_eq!(bar[0], ("/".to_string(), TextStyle { bold: true, ..with_fg(Tone::Yellow) }));
    assert_eq!(bar[2].0, "█");
    assert_eq!(bar[3].0, "  (1 matches — Esc clear, Enter confirm)");
}

#[test]
fn fetching_note_while_the_first_list_loads() {
    let mut a = app(vec![]);
    let area = Area { x: 0, y: 2, width: 41, height: 10 };
    assert!(fetching_note(&a, area).is_none());
    a.loading = true;
    let (t, r) = fetching_note(&a, area).unwrap();
    assert_eq!(t, "Fetching MRs…");
    assert_eq!(r, Area { x: 13, y: 7, width: 15, height: 1 });
    a.mrs = vec![mr(1, "x")];
    assert!(fetching_note(&a, area).is_none());
}

#[test]
fn list_keys_navigate_and_open() {
    let mut a = app(vec![mr(1, "one"), mr(2, "two")]);
    assert!(handle_key(&mut a, key(Key::Char('j'))).is_empty());
    assert_eq!(a.selected_row, 1);
    handle_key(&mut a, key(Key::Down));
    assert_eq!(a.selected_row, 1);
    handle_key(&mut a, key(Key::Char('k')));
    assert_eq!(a.selected_row, 0);
    handle_key(&mut a, key(Key::Enter));
    assert_eq!(a.view, AppView::MrDetail);
    assert_eq!(a.current_mr.as_ref().unwrap().iid, 1);
}

#[test]
fn list_keys_refresh_settings_and_search() {
    let mut a = app(vec![mr(1, "one"), mr(2, "two")]);
    assert_eq!(handle_key(&mut a, key(Key::Char('r'))), vec![AppCommand::LoadMrs]);
    assert!(a.loading);
    a.selected_row = 1;
    handle_key(&mut a, key(Key::Char('/')));
    assert!(a.local_search_active);
    assert_eq!(a.selected_row, 0);
    handle_key(&mut a, key(Key::Char('t')));
    handle_key(&mut a, key(Key::Char('w')));
    assert_eq!(a.local_search, "tw");
    handle_key(&mut a, key(Key::Backspace));
    assert_eq!(a.local_search, "t");
    handle_key(&mut a, key(Key::Enter));
    assert!(!a.local_search_active);
    assert_eq!(a.local_search, "t");
    handle_key(&mut a, key(Key::Char('/')));
    handle_key(&mut a, key(Key::Esc));
    assert!(!a.local_search_active && a.local_search.is_empty());
    handle_key(&mut a, key(Key::Char('s')));
    assert_eq!(a.view, AppView::Settings);
}

#[test]
fn areas() {
    let a = Area { x: 10, y: 5, width: 100, height: 50 };
    assert_eq!(centered_rect(62, 88, a), Area { x: 29, y: 8, width: 62, height: 44 });
    assert_eq!(right_aligned(a, 9), Some(Area { x: 101, y: 5, width: 9, height: 1 }));
    assert_eq!(right_aligned(a, 101), None);
}

#[test]
fn opening_a_merge_request_asks_for_its_comments() {
    let mut a = app(vec![mr(1, "one"), mr(2, "two")]);
    a.connected = true;
    a.selected_row = 1;
    let cmds = handle_key(&mut a, key(Key::Enter));
    assert!(cmds.contains(&AppCommand::LoadNotes(3, 2)));
    assert!(a.current_notes.is_empty());
    assert_eq!(a.view, AppView::MrDetail);
    a.view = AppView::MrList;
    a.connected = false;
    let cmds = handle_key(&mut a, key(Key::Enter));
    assert!(!cmds.iter().any(|c| matches!(c, AppCommand::LoadNotes(..))));
}

#[test]
fn list_bar_shows_loading_exactly_while_loading() {
    let mut a = app(vec![mr(1, "alpha")]);
    assert!(!list_bar(&a).1);
    a.loading = true;
    assert!(list_bar(&a).1);
    a.error = Some("boom".to_string());
    assert!(list_bar(&a).1);
    a.loading = false;
    assert!(!list_bar(&a).1);
}
