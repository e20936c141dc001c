use mrtui::config::Config;
use mrtui::gitlab::types::{CurrentUser, FileDiff, MergeRequest, Milestone, Note, Pipeline, References, User};
use mrtui::tui::app::{
    collect_approvals, collect_pipelines, keep_last, keep_last_present, mr_matches, App, AppCommand, AppEvent,
    AppView,
};

fn user(u: &str, n: &str) -> User {
    User { username: u.to_string(), name: n.to_string() }
}

fn mr(iid: u64, title: &str) -> MergeRequest {
    MergeRequest {
        iid,
        project_id: 7,
        references: References { full: format!("g/p!{iid}") },
        title: title.to_string(),
        description: None,
        state: "opened".to_string(),
        source_branch: format!("feature-{iid}"),
        target_branch: "main".to_string(),
        author: user("alice", "Alice Smith"),
        reviewers: vec![],
        detailed_merge_status: "not_approved".to_string(),
        draft: false,
        web_url: String::new(),
        updated_at: "2024-01-01".to_string(),
        labels: vec!["Backend".to_string()],
        milestone: Some(Milestone { title: "Release 2".to_string() }),
        pipeline: None,
        head_pipeline: None,
    }
}

fn configured() -> Config {
    let mut c = Config::default();
    c.gitlab_url = "https://gitlab.com".to_string();
    c.access_token = "t".to_string();
    c
}

fn app_with(mrs: Vec<MergeRequest>) -> App {
    let mut a = App::new(configured(), true, "/repo".to_string());
    a.mrs = mrs;
    a
}

#[test]
fn new_app_starts_on_the_list_when_configured() {
    let a = App::new(configured(), true, "/r".to_string());
    assert_eq!(a.view, AppView::MrList);
    assert!(a.mrs.is_empty() && !a.loading && a.selected_row == 0 && !a.show_help);
    let b = App::new(Config::default(), false, "/r".to_string());
    assert_eq!(b.view, AppView::Settings);
    assert!(!b.connected);
}

#[test]
fn search_matches_any_field_case_insensitively() {
    let m = mr(42, "Fix Login Bug");
    assert!(mr_matches(&m, "login"));
    assert!(mr_matches(&m, "feature-42"));
    assert!(mr_matches(&m, "alice"));
    assert!(mr_matches(&m, "smith"));
    assert!(mr_matches(&m, "42"));
    assert!(mr_matches(&m, "approval"));
    assert!(mr_matches(&m, "release"));
    assert!(mr_matches(&m, "backend"));
    assert!(mr_matches(&m, "fix bug"));
    assert!(!mr_matches(&m, "fix nothing"));
    assert!(mr_matches(&m, ""));
}

#[test]
fn visible_mrs_filters_by_search() {
    let mut a = app_with(vec![mr(1, "Alpha"), mr(2, "Beta"), mr(3, "alphabet")]);
    assert_eq!(a.visible_mrs().len(), 3);
    a.local_search = "ALPHA".to_string();
    let iids: Vec<u64> = a.visible_mrs().iter().map(|m| m.iid).collect();
    assert_eq!(iids, vec![1, 3]);
}

#[test]
fn cursor_moves_within_the_visible_rows() {
    let mut a = app_with(vec![mr(1, "a"), mr(2, "b"), mr(3, "c")]);
    a.move_up();
    assert_eq!(a.selected_row, 0);
    a.move_down();
    a.move_down();
    a.move_down();
    assert_eq!(a.selected_row, 2);
    assert_eq!(a.selected_mr().unwrap().iid, 3);
    a.move_up();
    assert_eq!(a.selected_mr().unwrap().iid, 2);
    a.local_search = "zzz".to_string();
    assert!(a.selected_mr().is_none());
}

#[test]
fn mr_keys_lists_project_and_iid() {
    let a = app_with(vec![mr(1, "a"), mr(5, "b")]);
    assert_eq!(a.mr_keys(), vec![(7, 1), (7, 5)]);
}

#[test]
fn trigger_load_needs_a_client() {
    let mut a = app_with(vec![]);
    a.error = Some("old".to_string());
    assert_eq!(a.trigger_load(), Some(AppCommand::LoadMrs));
    assert!(a.loading && a.error.is_none());
    let mut b = App::new(configured(), false, "/r".to_string());
    assert_eq!(b.trigger_load(), None);
    assert!(!b.loading);
}

#[test]
fn merge_without_a_client_reports_it() {
    let mut a = App::new(configured(), false, "/r".to_string());
    assert_eq!(a.trigger_merge(7, 1), None);
    assert_eq!(a.error.as_deref(), Some("Not connected"));
    let mut b = app_with(vec![]);
    assert_eq!(b.trigger_approve(7, 1), Some(AppCommand::Approve(7, 1)));
    assert!(b.error.is_none());
}

#[test]
fn trigger_load_diff_clears_the_old_diff() {
    let mut a = app_with(vec![]);
    a.current_diff = vec![FileDiff {
        old_path: "a".to_string(),
        new_path: "a".to_string(),
        diff: String::new(),
        new_file: false,
        deleted_file: false,
        renamed_file: false,
    }];
    assert_eq!(a.trigger_load_diff(7, 3), Some(AppCommand::LoadDiff(7, 3)));
    assert!(a.diff_loading && a.current_diff.is_empty());
}

#[test]
fn loaded_list_clamps_the_cursor_and_asks_for_details() {
    let mut a = app_with(vec![]);
    a.loading = true;
    a.selected_row = 9;
    let cmds = a.handle_event(AppEvent::MrsLoaded(Ok(vec![mr(1, "a"), mr(2, "b")])));
    assert_eq!(cmds, vec![AppCommand::LoadApprovals, AppCommand::LoadPipelines]);
    assert_eq!(a.selected_row, 1);
    assert!(!a.loading);
    let cmds = a.handle_event(AppEvent::MrsLoaded(Ok(vec![])));
    assert!(cmds.is_empty());
    assert_eq!(a.selected_row, 0);
}

#[test]
fn failed_list_shows_the_error() {
    let mut a = app_with(vec![]);
    a.loading = true;
    let cmds = a.handle_event(AppEvent::MrsLoaded(Err("Request failed: timeout".to_string())));
    assert!(cmds.is_empty());
    assert_eq!(a.error.as_deref(), Some("Request failed: timeout"));
    assert!(!a.loading);
}

#[test]
fn merge_and_approve_results() {
    let mut a = app_with(vec![]);
    let cmds = a.handle_event(AppEvent::MergeDone(Ok(())));
    assert_eq!(a.status_msg.as_deref(), Some("Merged successfully!"));
    assert_eq!(cmds, vec![AppCommand::LoadMrs]);
    assert!(a.loading);
    a.handle_event(AppEvent::MergeDone(Err("API error: 405".to_string())));
    assert_eq!(a.error.as_deref(), Some("Merge failed: API error: 405"));
    let cmds = a.handle_event(AppEvent::ApproveDone(Ok(())));
    assert_eq!(a.status_msg.as_deref(), Some("Approved!"));
    assert_eq!(cmds, vec![AppCommand::LoadMrs]);
    a.handle_event(AppEvent::ApproveDone(Err("no".to_string())));
    assert_eq!(a.error.as_deref(), Some("Approve failed: no"));
}

#[test]
fn diff_results() {
    let mut a = app_with(vec![]);
    a.diff_loading = true;
    a.handle_event(AppEvent::DiffLoaded(Err("Parse error: x".to_string())));
    assert!(!a.diff_loading);
    assert_eq!(a.error.as_deref(), Some("Parse error: x"));
}

#[test]
fn worktree_results() {
    let mut a = app_with(vec![]);
    let cmds = a.handle_event(AppEvent::WorktreeCreated(Ok("Worktree created at /w".to_string())));
    assert_eq!(cmds, vec![AppCommand::CheckWorktrees]);
    assert_eq!(a.status_msg.as_deref(), Some("Worktree created at /w"));
    a.handle_event(AppEvent::WorktreeCreated(Err("git worktree add failed".to_string())));
    assert_eq!(a.error.as_deref(), Some("Checkout failed: git worktree add failed"));
    a.handle_event(AppEvent::WorktreesLoaded(vec![("main".to_string(), "/repo".to_string())]));
    assert_eq!(a.checked_out_worktrees.len(), 1);
}

#[test]
fn user_and_details_results() {
    let mut a = app_with(vec![]);
    a.handle_event(AppEvent::UserLoaded(Ok(CurrentUser { id: 9, username: "bob".to_string() })));
    assert_eq!(a.current_user_id, Some(9));
    assert_eq!(a.current_username.as_deref(), Some("bob"));
    a.handle_event(AppEvent::UserLoaded(Err("x".to_string())));
    assert_eq!(a.current_user_id, Some(9));
    a.handle_event(AppEvent::PipelinesLoaded(vec![((7, 1), Some(Pipeline { status: "failed".to_string() }))]));
    assert_eq!(a.pipelines.len(), 1);
    a.handle_event(AppEvent::ApprovalsLoaded(vec![((7, 1), vec![user("carol", "C")])]));
    assert_eq!(a.approvals[0].1[0].username, "carol");
}

#[test]
fn saved_settings_reconnect() {
    let mut a = App::new(Config::default(), false, "/r".to_string());
    let cmds = a.handle_event(AppEvent::ConfigSaved(configured()));
    assert_eq!(cmds, vec![AppCommand::Connect]);
    assert_eq!(a.view, AppView::MrList);
    assert_eq!(a.config.gitlab_url, "https://gitlab.com");
    let cmds = a.connection_result(true);
    assert_eq!(cmds, vec![AppCommand::LoadMrs, AppCommand::LoadUser]);
    assert!(a.connected && a.loading);
    let cmds = a.connection_result(false);
    assert!(cmds.is_empty());
    assert!(!a.connected);
}

#[test]
fn git_suspend_events_change_nothing() {
    let mut a = app_with(vec![mr(1, "a")]);
    assert!(a.handle_event(AppEvent::GitSuspendRequest).is_empty());
    assert!(a.handle_event(AppEvent::GitResumed).is_empty());
    assert_eq!(a.mrs.len(), 1);
}

fn pipeline(status: &str) -> Pipeline {
    Pipeline { status: status.to_string() }
}

#[test]
fn every_loaded_pipeline_is_kept() {
    let r = collect_pipelines(vec![
        ((7, 1), Some(pipeline("success"))),
        ((7, 2), None),
        ((7, 3), Some(pipeline("failed"))),
    ]);
    assert_eq!(r.len(), 2);
    assert!(r.iter().any(|e| e.0 == (7, 1) && e.1.status == "success"));
    assert!(r.iter().any(|e| e.0 == (7, 3) && e.1.status == "failed"));
    assert!(!r.iter().any(|e| e.0 == (7, 2)));
}

#[test]
fn the_last_result_of_a_key_wins() {
    let r = collect_pipelines(vec![
        ((7, 1), Some(pipeline("running"))),
        ((7, 1), Some(pipeline("success"))),
        ((7, 1), None),
    ]);
    assert_eq!(r.len(), 1);
    assert_eq!(r[0].1.status, "success");
    let a = collect_approvals(vec![((7, 1), vec![user("a", "A")]), ((7, 1), vec![])]);
    assert_eq!(a.len(), 1);
    assert!(a[0].1.is_empty());
    assert_eq!(keep_last(vec![((1, 1), 1u8), ((2, 2), 2u8), ((1, 1), 3u8)]).len(), 2);
    assert!(keep_last_present::<u8>(vec![((1, 1), None)]).is_empty());
}

#[test]
fn loaded_entries_are_kept_once_per_merge_request() {
    let mut a = app_with(vec![]);
    a.handle_event(AppEvent::PipelinesLoaded(vec![
        ((7, 1), Some(pipeline("running"))),
        ((7, 1), Some(pipeline("success"))),
        ((7, 2), None),
    ]));
    assert_eq!(a.pipelines.len(), 1);
    assert_eq!(a.pipelines[0].1.status, "success");
    a.handle_event(AppEvent::ApprovalsLoaded(vec![((7, 1), vec![]), ((7, 2), vec![user("bob", "B")]), ((7, 1), vec![user("carol", "C")])]));
    assert_eq!(a.approvals.len(), 2);
    let first = a.approvals.iter().find(|e| e.0 == (7, 1)).unwrap();
    assert_eq!(first.1[0].username, "carol");
}

#[test]
fn loaded_comments_replace_the_old_ones() {
    let mut a = app_with(vec![]);
    let note = Note { body: "Nice work".to_string(), author: user("bob", "Bob"), created_at: "2024-01-02T10:00:00Z".to_string(), system: false };
    let cmds = a.handle_event(AppEvent::NotesLoaded(Ok(vec![note])));
    assert!(cmds.is_empty());
    assert_eq!(a.current_notes.len(), 1);
    assert_eq!(a.current_notes[0].body, "Nice work");
    a.handle_event(AppEvent::NotesLoaded(Err("API error: 404".to_string())));
    assert_eq!(a.error.as_deref(), Some("API error: 404"));
    assert_eq!(a.current_notes.len(), 1);
}

#[test]
fn comments_are_asked_for_only_when_connected() {
    let mut a = app_with(vec![]);
    a.connected = false;
    assert_eq!(a.trigger_load_notes(7, 3), None);
    a.connected = true;
    assert_eq!(a.trigger_load_notes(7, 3), Some(AppCommand::LoadNotes(7, 3)));
}
