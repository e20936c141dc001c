use mrtui::config::{Config, ProjectEntry};
use mrtui::gitlab::types::{MergeRequest, References, User};
use mrtui::style::{TextStyle, Tone};
use mrtui::tui::app::{App, AppView};
use mrtui::tui::area::Area;
use mrtui::tui::keys::{Key, KeyInput};
use mrtui::tui::views::checkout_panel::{
    self, input_frame, local_line, mode_line, popup, CheckoutCommand, CheckoutMode,
    CheckoutPanelState,
};
use mrtui::tui::views::help::{
    byte_width, help_frame, help_lines, label_width, settings_bar, status_bar,
};
use mrtui::tui::views::settings::{
    self, build_config, field_frame, field_label, first_line, initial_text, SettingsCommand,
    SettingsState, SettingsText, FIELD_COUNT, F_PROJECTS, F_TOKEN, F_URL, F_WORKTREE,
};

fn key(k: Key) -> KeyInput {
    KeyInput { key: k, ctrl: false }
}

fn strings(v: &[&str]) -> Vec<String> {
    v.iter().map(|s| s.to_string()).collect()
}

fn text(url: &[&str], token: &[&str], projects: &[&str]) -> SettingsText {
    SettingsText {
        url: strings(url),
        token: strings(token),
        worktree: strings(&[""]),
        projects: strings(projects),
    }
}

fn mr() -> MergeRequest {
    MergeRequest {
        iid: 5,
        project_id: 1,
        references: References { full: "g/p!5".to_string() },
        title: "t".to_string(),
        description: None,
        state: "opened".to_string(),
        source_branch: "topic/x".to_string(),
        target_branch: "main".to_string(),
        author: User { username: "u".to_string(), name: "U".to_string() },
        reviewers: vec![],
        detailed_merge_status: String::new(),
        draft: false,
        web_url: String::new(),
        updated_at: String::new(),
        labels: vec![],
        milestone: None,
        pipeline: None,
        head_pipeline: None,
    }
}

fn app() -> App {
    let mut c = Config::default();
    c.gitlab_url = "https://gitlab.com".to_string();
    c.access_token = "t".to_string();
    c.ide_command = Some("code".to_string());
    let mut a = App::new(c, true, "/repo".to_string());
    a.current_mr = Some(mr());
    a
}

#[test]
fn settings_fields_open_on_the_config() {
    let mut c = Config::default();
    c.gitlab_url = "https://gitlab.com".to_string();
    c.access_token = "tok".to_string();
    c.browser = Some("firefox".to_string());
    c.projects = vec![ProjectEntry { path: "a/b".to_string() }, ProjectEntry { path: "c".to_string() }];
    let t = initial_text(&c);
    assert_eq!(t.url, vec!["https://gitlab.com"]);
    assert_eq!(t.token, vec!["tok"]);
    assert_eq!(t.worktree, vec![""]);
    assert_eq!(t.projects, vec!["a/b", "c"]);
    let e = initial_text(&Config::default());
    assert_eq!(e.worktree, vec![""]);
    assert_eq!(e.projects, vec![""]);
}

#[test]
fn settings_save_unchanged_keeps_them() {
    let mut c = Config::default();
    c.gitlab_url = "https://gitlab.com".to_string();
    c.access_token = "tok".to_string();
    c.projects = vec![ProjectEntry { path: "a/b".to_string() }];
    c.default_worktree_path = Some("/home/u/wt".to_string());
    let saved = build_config(&initial_text(&c), &c).ok().unwrap();
    assert_eq!(saved.default_worktree_path.as_deref(), Some("/home/u/wt"));
    assert_eq!(saved.gitlab_url, c.gitlab_url);
    assert_eq!(saved.access_token, c.access_token);
    assert_eq!(saved.browser, None);
    assert_eq!(saved.projects.len(), 1);
    assert_eq!(saved.projects[0].path, "a/b");
}

#[test]
fn build_config_reads_the_fields() {
    let mut current = Config::default();
    current.browser = Some("brave".to_string());
    current.ide_command = Some("code".to_string());
    let c = build_config(&text(&["  https://g  ", "ignored"], &[" tok "], &["a/b", " ", "c/d "]), &current)
        .ok()
        .unwrap();
    assert_eq!(c.gitlab_url, "https://g");
    assert_eq!(c.access_token, "tok");
    assert_eq!(c.browser.as_deref(), Some("brave"));
    let paths: Vec<&str> = c.projects.iter().map(|p| p.path.as_str()).collect();
    assert_eq!(paths, vec!["a/b", "c/d"]);
    assert!(c.my_username.is_none() && c.default_worktree_path.is_none() && c.ide_command.is_none());
    let mut t = text(&["https://g"], &["t"], &["42"]);
    t.worktree = strings(&["  /srv/wt  "]);
    let c = build_config(&t, &Config::default()).ok().unwrap();
    assert!(c.browser.is_none());
    assert_eq!(c.default_worktree_path.as_deref(), Some("/srv/wt"));
    assert_eq!(c.projects[0].path, "42");
}

#[test]
fn build_config_errors() {
    assert_eq!(
        build_config(&text(&["   "], &["tok"], &[""]), &Config::default()).err().unwrap(),
        "GitLab URL is required (e.g. https://gitlab.com)"
    );
    assert_eq!(
        build_config(&text(&[], &[], &[]), &Config::default()).err().unwrap(),
        "GitLab URL is required (e.g. https://gitlab.com)"
    );
    assert_eq!(
        build_config(&text(&["https://g"], &[""], &[""]), &Config::default()).err().unwrap(),
        "Access token is required"
    );
    let mut t = text(&["https://g"], &["t"], &[]);
    t.worktree = strings(&["  "]);
    assert!(build_config(&t, &Config::default()).ok().unwrap().default_worktree_path.is_none());
}

#[test]
fn first_lines_and_labels() {
    assert_eq!(first_line(&strings(&[" a ", "b"])), "a");
    assert_eq!(first_line(&vec![]), "");
    assert_eq!(field_label(F_URL), "[1] GitLab URL");
    assert_eq!(field_label(F_TOKEN), "[2] Personal Access Token");
    assert_eq!(field_label(F_PROJECTS), "[3] Projects  (one URL, path or numeric project ID per line)");
    assert_eq!(field_label(F_WORKTREE), "[4] Worktree root  (optional — where MR branches are checked out)");
    assert_eq!(FIELD_COUNT, 4);
    assert_eq!(field_label(9), "");
}

#[test]
fn focus_moves_around() {
    let mut s = SettingsState::new();
    s.move_prev();
    assert_eq!(s.active, F_WORKTREE);
    s.move_next();
    assert_eq!(s.active, F_URL);
    s.editing = true;
    s.move_to(F_PROJECTS);
    assert_eq!(s, SettingsState { active: F_PROJECTS, editing: false });
    for expected in [F_WORKTREE, F_URL, F_TOKEN, F_PROJECTS] {
        s.move_next();
        assert_eq!(s.active, expected);
    }
}

#[test]
fn field_frames() {
    let s = SettingsState { active: F_PROJECTS, editing: false };
    let f = field_frame(&s, F_PROJECTS);
    assert_eq!(f.title, " [3] Projects  (one URL, path or numeric project ID per line) — Space to edit · Tab to move on ");
    assert_eq!(f.border, Tone::Yellow);
    assert!(!f.cursor_shown);
    let g = field_frame(&s, F_URL);
    assert_eq!(g.title, " [1] GitLab URL ");
    assert_eq!(g.border, Tone::DarkGray);
    let e = SettingsState { active: F_URL, editing: true };
    let h = field_frame(&e, F_URL);
    assert_eq!(h.title, " [1] GitLab URL ");
    assert_eq!(h.border, Tone::Green);
    assert!(h.cursor_shown);
    assert_eq!(field_frame(&SettingsState::new(), F_URL).title, " [1] GitLab URL — Space to edit ");
}

#[test]
fn settings_keys() {
    let mut a = app();
    a.view = AppView::Settings;
    let t = text(&["https://g"], &["t"], &[""]);
    let mut s = SettingsState::new();
    assert!(matches!(settings::handle_key(&mut a, &mut s, &t, key(Key::Tab)), SettingsCommand::Nothing));
    assert_eq!(s.active, F_TOKEN);
    settings::handle_key(&mut a, &mut s, &t, key(Key::Up));
    assert_eq!(s.active, F_URL);
    settings::handle_key(&mut a, &mut s, &t, key(Key::Char('4')));
    assert_eq!(s.active, F_WORKTREE);
    settings::handle_key(&mut a, &mut s, &t, key(Key::Char('5')));
    assert_eq!(s.active, F_WORKTREE);
    settings::handle_key(&mut a, &mut s, &t, key(Key::Down));
    assert_eq!(s.active, F_URL);
    settings::handle_key(&mut a, &mut s, &t, key(Key::Char('3')));
    assert_eq!(s.active, F_PROJECTS);
    settings::handle_key(&mut a, &mut s, &t, key(Key::Char(' ')));
    assert!(s.editing);
    assert!(matches!(settings::handle_key(&mut a, &mut s, &t, key(Key::Enter)), SettingsCommand::Edit));
    assert!(s.editing);
    settings::handle_key(&mut a, &mut s, &t, key(Key::Tab));
    assert_eq!(s, SettingsState { active: F_WORKTREE, editing: false });
    settings::handle_key(&mut a, &mut s, &t, key(Key::Tab));
    assert_eq!(s, SettingsState { active: F_URL, editing: false });
    settings::handle_key(&mut a, &mut s, &t, key(Key::Enter));
    assert!(s.editing);
    settings::handle_key(&mut a, &mut s, &t, key(Key::Enter));
    assert!(!s.editing);
    match settings::handle_key(&mut a, &mut s, &t, KeyInput { key: Key::Char('s'), ctrl: true }) {
        SettingsCommand::Save(c) => assert_eq!(c.gitlab_url, "https://g"),
        _ => panic!("expected a save"),
    }
    let bad = text(&[""], &["t"], &[""]);
    settings::handle_key(&mut a, &mut s, &bad, KeyInput { key: Key::Char('s'), ctrl: true });
    assert_eq!(a.error.as_deref(), Some("GitLab URL is required (e.g. https://gitlab.com)"));
    settings::handle_key(&mut a, &mut s, &t, key(Key::Esc));
    assert_eq!(a.view, AppView::MrList);
    assert!(a.error.is_none());
    settings::save_failed(&mut a, "Write error: denied");
    assert_eq!(a.error.as_deref(), Some("Save failed: Write error: denied"));
}

#[test]
fn checkout_panel_opens_in_worktree_mode() {
    let (p, lines) = CheckoutPanelState::new("/w/topic");
    assert_eq!(p.mode, CheckoutMode::Worktree);
    assert_eq!(lines, vec!["/w/topic"]);
    assert_eq!(input_frame(CheckoutMode::Worktree), (" Worktree path — Enter to confirm, Esc to cancel ", Tone::Cyan));
    assert_eq!(
        input_frame(CheckoutMode::Local),
        (" Checkout in current repo — Enter to confirm, Esc to cancel ", Tone::Yellow)
    );
    assert_eq!(mode_line(CheckoutMode::Worktree), "  [Tab] switch to: Local checkout");
    assert_eq!(mode_line(CheckoutMode::Local), "  [Tab] switch to: Worktree");
}

#[test]
fn checkout_keys() {
    let a = app();
    let lines = strings(&["  /w/topic  "]);
    let mut st = Some(CheckoutPanelState { mode: CheckoutMode::Worktree });
    assert!(matches!(checkout_panel::handle_key(&a, &mut st, &lines, key(Key::Char('x'))), CheckoutCommand::Edit));
    checkout_panel::handle_key(&a, &mut st, &lines, key(Key::Tab));
    assert_eq!(st, Some(CheckoutPanelState { mode: CheckoutMode::Local }));
    assert!(matches!(checkout_panel::handle_key(&a, &mut st, &lines, key(Key::Char('x'))), CheckoutCommand::Nothing));
    match checkout_panel::handle_key(&a, &mut st, &lines, key(Key::Enter)) {
        CheckoutCommand::CheckoutHere { repo, branch } => {
            assert_eq!(repo, "/repo");
            assert_eq!(branch, "topic/x");
        }
        _ => panic!("expected a checkout in place"),
    }
    assert!(st.is_none());
    let mut st = Some(CheckoutPanelState { mode: CheckoutMode::Worktree });
    match checkout_panel::handle_key(&a, &mut st, &lines, key(Key::Enter)) {
        CheckoutCommand::AddWorktree { repo, path, branch, ide } => {
            assert_eq!(repo, "/repo");
            assert_eq!(path, "/w/topic");
            assert_eq!(branch, "topic/x");
            assert_eq!(ide.as_deref(), Some("code"));
        }
        _ => panic!("expected a new worktree"),
    }
    assert!(st.is_none());
    let mut st = Some(CheckoutPanelState { mode: CheckoutMode::Worktree });
    let empty = strings(&["   "]);
    assert!(matches!(checkout_panel::handle_key(&a, &mut st, &empty, key(Key::Enter)), CheckoutCommand::Nothing));
    assert!(st.is_some());
    checkout_panel::handle_key(&a, &mut st, &empty, key(Key::Esc));
    assert!(st.is_none());
    assert!(matches!(checkout_panel::handle_key(&a, &mut st, &empty, key(Key::Enter)), CheckoutCommand::Nothing));
}

#[test]
fn checkout_texts_and_popup() {
    let a = app();
    assert_eq!(local_line(&a), "  Checkout branch 'topic/x' in current repo");
    assert_eq!(checkout_panel::info_line(&a), "  Branch: topic/x  ·  repo: /repo");
    assert_eq!(popup(Area { x: 0, y: 0, width: 120, height: 40 }), Area { x: 15, y: 17, width: 90, height: 6 });
    assert_eq!(popup(Area { x: 2, y: 1, width: 50, height: 4 }), Area { x: 6, y: 1, width: 42, height: 6 });
}

#[test]
fn help_popup_lines() {
    let lines = help_lines();
    assert_eq!(lines.len(), 33);
    let first: String = lines[0].iter().map(|s| s.text.as_str()).collect();
    assert_eq!(first, "  Global");
    assert_eq!(lines[0][0].style, TextStyle { fg: Tone::Cyan, bold: true, italic: false, crossed_out: false, underlined: false });
    assert_eq!(lines[1][0].text, format!("    {:<24}", "↑/↓  j/k"));
    assert_eq!(lines[1][1].text, "Navigate / scroll");
    assert!(lines[5].is_empty());
    assert_eq!(help_frame(33, 20, 50), (15, " Keybindings  [?] close  ↑↓ scroll "));
    assert_eq!(help_frame(33, 20, 3), (3, " Keybindings  [?] close  ↑↓ scroll "));
    assert_eq!(help_frame(33, 40, 7), (0, " Keybindings  [?] close "));
}

#[test]
fn status_bar_and_labels() {
    let (line, label) = status_bar(&[("Ctrl+S", "save"), ("?", "help")], false, Some("saved"), None);
    assert_eq!(line[1].text, "[Ctrl+S] save");
    let (t, c) = label.unwrap();
    assert_eq!(t, "saved ");
    assert_eq!(c, Tone::Green);
    let (t, c) = status_bar(&[], false, Some("saved"), Some("boom")).1.unwrap();
    assert_eq!(t, "boom ");
    assert_eq!(c, Tone::Red);
    let (_, loading) = status_bar(&[], true, Some("x"), Some("y"));
    assert_eq!(loading.unwrap().0, "loading…  ");
    assert!(status_bar(&[], false, None, None).1.is_none());
    assert_eq!(label_width("loading…  "), 10);
    assert_eq!(byte_width("loading… "), 11);
}

#[test]
fn settings_bar_shows_errors_in_red() {
    let mut a = app();
    a.view = AppView::Settings;
    let (line, label) = settings_bar(&a);
    assert_eq!(line[1].text, "[Ctrl+S] save");
    assert!(label.is_none());
    a.status_msg = Some("Saved".to_string());
    assert_eq!(settings_bar(&a).1, Some(("Saved ".to_string(), Tone::Green)));
    a.error = Some("Access token is required".to_string());
    assert_eq!(settings_bar(&a).1, Some(("Access token is required ".to_string(), Tone::Red)));
}

#[test]
fn saving_keeps_the_browser_the_form_does_not_show() {
    let mut a = app();
    a.view = AppView::Settings;
    a.config.browser = Some("firefox".to_string());
    let mut t = text(&["https://g"], &["t"], &["a/b"]);
    t.worktree = strings(&["/wt"]);
    let mut s = SettingsState::new();
    match settings::handle_key(&mut a, &mut s, &t, KeyInput { key: Key::Char('s'), ctrl: true }) {
        SettingsCommand::Save(c) => {
            assert_eq!(c.browser.as_deref(), Some("firefox"));
            assert_eq!(c.default_worktree_path.as_deref(), Some("/wt"));
            assert_eq!(c.projects[0].path, "a/b");
        }
        _ => panic!("expected a save"),
    }
}
