use mrtui::config::Config;
use mrtui::gitlab::types::{MergeRequest, References, User};
use mrtui::tui::app::{App, AppCommand, AppEvent, AppView};
use mrtui::tui::control::{
    checkout_path_for, key_fits, route_event, route_key, route_wheel, wheel_fits, KeyOutcome, Screens,
};
use mrtui::tui::keys::{Key, KeyInput};
use mrtui::tui::views::checkout_panel::{CheckoutCommand, CheckoutMode, CheckoutPanelState};
use mrtui::tui::views::mr_detail::{DetailState, DetailTab};
use mrtui::tui::views::settings::{initial_text, SettingsCommand, SettingsState, SettingsText};

fn key(k: Key) -> KeyInput {
    KeyInput { key: k, ctrl: false }
}

fn mr(iid: u64) -> MergeRequest {
    MergeRequest {
        iid,
        project_id: 4,
        references: References { full: format!("g/p!{iid}") },
        title: format!("MR {iid}"),
        description: None,
        state: "opened".to_string(),
        source_branch: format!("branch-{iid}"),
        target_branch: "main".to_string(),
        author: User { username: "a".to_string(), name: "A".to_string() },
        reviewers: vec![],
        detailed_merge_status: "mergeable".to_string(),
        draft: false,
        web_url: String::new(),
        updated_at: String::new(),
        labels: vec![],
        milestone: None,
        pipeline: None,
        head_pipeline: None,
    }
}

fn config() -> Config {
    let mut c = Config::default();
    c.gitlab_url = "https://gitlab.com".to_string();
    c.access_token = "t".to_string();
    c
}

fn app() -> App {
    let mut a = App::new(config(), true, "/repo".to_string());
    a.mrs = vec![mr(1), mr(2), mr(3), mr(4), mr(5)];
    a
}

fn fields() -> SettingsText {
    initial_text(&config())
}

fn press(a: &mut App, s: &mut Screens, k: KeyInput) -> KeyOutcome {
    route_key(a, s, &fields(), &vec!["/w".to_string()], k)
}

#[test]
fn question_mark_toggles_help_which_takes_the_keys() {
    let mut a = app();
    let mut s = Screens::new();
    a.help_scroll = 9;
    press(&mut a, &mut s, key(Key::Char('?')));
    assert!(a.show_help);
    assert_eq!(a.help_scroll, 0);
    press(&mut a, &mut s, key(Key::Char('j')));
    press(&mut a, &mut s, key(Key::PageDown));
    assert_eq!(a.help_scroll, 11);
    press(&mut a, &mut s, key(Key::PageUp));
    press(&mut a, &mut s, key(Key::Up));
    assert_eq!(a.help_scroll, 0);
    assert_eq!(a.selected_row, 0);
    press(&mut a, &mut s, key(Key::Char('x')));
    assert!(!a.show_help);
    press(&mut a, &mut s, key(Key::Char('?')));
    press(&mut a, &mut s, key(Key::Char('?')));
    assert!(!a.show_help);
}

#[test]
fn quitting() {
    let mut a = app();
    let mut s = Screens::new();
    assert!(matches!(press(&mut a, &mut s, KeyInput { key: Key::Char('c'), ctrl: true }), KeyOutcome::Quit));
    assert!(matches!(press(&mut a, &mut s, key(Key::Char('q'))), KeyOutcome::Quit));
    a.local_search_active = true;
    assert!(!matches!(press(&mut a, &mut s, key(Key::Char('q'))), KeyOutcome::Quit));
    assert_eq!(a.local_search, "q");
}

#[test]
fn keys_clear_messages_but_q_keeps_the_error() {
    let mut a = app();
    let mut s = Screens::new();
    a.view = AppView::MrDetail;
    a.current_mr = Some(mr(1));
    a.error = Some("e".to_string());
    a.status_msg = Some("m".to_string());
    press(&mut a, &mut s, key(Key::Char('q')));
    assert_eq!(a.error.as_deref(), Some("e"));
    assert!(a.status_msg.is_none());
    press(&mut a, &mut s, key(Key::Char('j')));
    assert!(a.error.is_none());
    assert_eq!(s.detail.scroll, 1);
}

#[test]
fn list_keys_reach_the_list_and_enter_opens_the_detail() {
    let mut a = app();
    let mut s = Screens::new();
    s.detail = DetailState { tab: DetailTab::Diff, scroll: 8 };
    match press(&mut a, &mut s, key(Key::Char('r'))) {
        KeyOutcome::Commands(c) => assert_eq!(c, vec![AppCommand::LoadMrs]),
        _ => panic!("expected commands"),
    }
    press(&mut a, &mut s, key(Key::Down));
    press(&mut a, &mut s, key(Key::Enter));
    assert_eq!(a.view, AppView::MrDetail);
    assert_eq!(a.current_mr.as_ref().unwrap().iid, 2);
    assert_eq!(s.detail, DetailState::new());
}

#[test]
fn c_opens_the_checkout_panel() {
    let mut a = app();
    let mut cfg = config();
    cfg.default_worktree_path = Some("/work".to_string());
    a.config = cfg;
    let mut s = Screens::new();
    a.selected_row = 2;
    match press(&mut a, &mut s, key(Key::Char('c'))) {
        KeyOutcome::CheckoutOpened(lines) => assert_eq!(lines, vec!["/work/branch-3"]),
        _ => panic!("expected the panel"),
    }
    assert_eq!(s.checkout, Some(CheckoutPanelState { mode: CheckoutMode::Worktree }));
    assert_eq!(a.current_mr.as_ref().unwrap().iid, 3);
    match press(&mut a, &mut s, key(Key::Enter)) {
        KeyOutcome::Checkout(CheckoutCommand::AddWorktree { path, branch, .. }) => {
            assert_eq!(path, "/w");
            assert_eq!(branch, "branch-3");
        }
        _ => panic!("expected the panel's command"),
    }
    assert!(s.checkout.is_none());
}

#[test]
fn c_in_the_detail_opens_the_panel_on_the_merge_request_shown() {
    let mut a = app();
    a.view = AppView::MrDetail;
    a.current_mr = Some(mr(5));
    let mut s = Screens::new();
    match press(&mut a, &mut s, key(Key::Char('c'))) {
        KeyOutcome::CheckoutOpened(lines) => assert_eq!(lines, vec!["branch-5"]),
        _ => panic!("expected the panel"),
    }
    assert!(matches!(press(&mut a, &mut s, key(Key::Char('q'))), KeyOutcome::Checkout(CheckoutCommand::Edit)));
    press(&mut a, &mut s, key(Key::Esc));
    assert!(s.checkout.is_none());
    a.current_mr = None;
    match press(&mut a, &mut s, key(Key::Char('c'))) {
        KeyOutcome::Commands(c) => assert!(c.is_empty()),
        _ => panic!("no panel without a merge request"),
    }
}

#[test]
fn settings_keys_reach_the_settings() {
    let mut a = app();
    a.view = AppView::Settings;
    let mut s = Screens::new();
    assert!(matches!(press(&mut a, &mut s, key(Key::Tab)), KeyOutcome::Settings(SettingsCommand::Nothing)));
    assert_eq!(s.settings.active, 1);
    match press(&mut a, &mut s, KeyInput { key: Key::Char('s'), ctrl: true }) {
        KeyOutcome::Settings(SettingsCommand::Save(c)) => assert_eq!(c.access_token, "t"),
        _ => panic!("expected a save"),
    }
}

#[test]
fn the_wheel_moves_the_cursor_or_scrolls() {
    let mut a = app();
    let mut s = Screens::new();
    route_wheel(&mut a, &mut s, false);
    assert_eq!(a.selected_row, 3);
    route_wheel(&mut a, &mut s, false);
    assert_eq!(a.selected_row, 4);
    route_wheel(&mut a, &mut s, true);
    assert_eq!(a.selected_row, 1);
    route_wheel(&mut a, &mut s, true);
    assert_eq!(a.selected_row, 0);
    a.view = AppView::MrDetail;
    route_wheel(&mut a, &mut s, false);
    assert_eq!(s.detail.scroll, 3);
    route_wheel(&mut a, &mut s, true);
    route_wheel(&mut a, &mut s, true);
    assert_eq!(s.detail.scroll, 0);
    a.view = AppView::Settings;
    route_wheel(&mut a, &mut s, false);
    assert_eq!(s.detail.scroll, 0);
}

#[test]
fn events_restart_the_settings_screen_when_it_shows() {
    let mut a = App::new(Config::default(), false, "/r".to_string());
    let mut s = Screens::new();
    s.settings = SettingsState { active: 2, editing: true };
    let (cmds, text) = route_event(&mut a, &mut s, AppEvent::ConfigSaved(config()));
    assert_eq!(cmds, vec![AppCommand::Connect]);
    assert_eq!(a.view, AppView::MrList);
    assert_eq!(s.settings, SettingsState::new());
    assert_eq!(text.unwrap().url, vec!["https://gitlab.com"]);
    let (cmds, text) = route_event(&mut a, &mut s, AppEvent::GitResumed);
    assert!(cmds.is_empty() && text.is_none());
}

#[test]
fn checkout_paths() {
    let mut c = config();
    assert_eq!(checkout_path_for(&c, "feat/x"), "feat/x");
    c.default_worktree_path = Some("/home/u/wt/".to_string());
    assert_eq!(checkout_path_for(&c, "feat/x"), "/home/u/wt/feat/x");
}

#[test]
fn counters_that_would_overflow_are_caught_first() {
    let mut a = app();
    let mut s = Screens::new();
    assert!(key_fits(&a, &s, key(Key::Down)));
    a.view = AppView::MrDetail;
    s.detail.scroll = 65535;
    assert!(!key_fits(&a, &s, key(Key::Down)));
    assert!(key_fits(&a, &s, key(Key::Up)));
    assert!(!wheel_fits(&a, &s, false));
    assert!(wheel_fits(&a, &s, true));
    s.detail.scroll = 65530;
    assert!(!key_fits(&a, &s, key(Key::PageDown)));
    assert!(key_fits(&a, &s, key(Key::Char('j'))));
    a.show_help = true;
    a.help_scroll = 65535;
    assert!(!key_fits(&a, &s, key(Key::Char('j'))));
    assert!(key_fits(&a, &s, key(Key::Char('?'))));
}
