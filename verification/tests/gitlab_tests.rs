use mrtui::gitlab::client::{
    approvals_path, approve_path, notes_path, current_user_url, pipelines_path, base_url, changes_path, collect_project_mrs, global_list_step, global_mrs_url,
    membership_projects_url, merge_path, paths_with_namespace, project_mrs_url, project_url,
    sort_newest_first, str_less, GitLabClient, GlobalListStep, ListRequest,
};
use mrtui::gitlab::types::{
    diff_stats, FileDiff, MergeRequest, Milestone, Pipeline, References, User,
};

fn user(u: &str) -> User {
    User { username: u.to_string(), name: u.to_uppercase() }
}

fn mr(iid: u64, updated_at: &str) -> MergeRequest {
    MergeRequest {
        iid,
        project_id: 7,
        references: References { full: format!("group/project!{iid}") },
        title: format!("Change {iid}"),
        description: None,
        state: "opened".to_string(),
        source_branch: format!("feature-{iid}"),
        target_branch: "main".to_string(),
        author: user("alice"),
        reviewers: vec![],
        detailed_merge_status: "mergeable".to_string(),
        draft: false,
        web_url: format!("https://gitlab.com/group/project/-/merge_requests/{iid}"),
        updated_at: updated_at.to_string(),
        labels: vec![],
        milestone: None,
        pipeline: None,
        head_pipeline: None,
    }
}

fn file(diff: &str) -> FileDiff {
    FileDiff {
        old_path: "a.rs".to_string(),
        new_path: "a.rs".to_string(),
        diff: diff.to_string(),
        new_file: false,
        deleted_file: false,
        renamed_file: false,
    }
}

fn pipeline(s: &str) -> Pipeline {
    Pipeline { status: s.to_string() }
}

#[test]
fn pipeline_icons() {
    assert_eq!(pipeline("success").icon(), "✓");
    assert_eq!(pipeline("failed").icon(), "✗");
    assert_eq!(pipeline("running").icon(), "◌");
    assert_eq!(pipeline("pending").icon(), "◌");
    assert_eq!(pipeline("canceled").icon(), "○");
}

#[test]
fn pipeline_color_names() {
    assert_eq!(pipeline("success").color_name(), "green");
    assert_eq!(pipeline("failed").color_name(), "red");
    assert_eq!(pipeline("running").color_name(), "yellow");
    assert_eq!(pipeline("pending").color_name(), "yellow");
    assert_eq!(pipeline("skipped").color_name(), "dark_gray");
}

#[test]
fn status_labels() {
    let cases = [
        ("mergeable", "Mergeable"),
        ("not_approved", "Needs Approval"),
        ("checking", "Checking"),
        ("blocked_status", "Blocked"),
        ("discussions_not_resolved", "Open Discussions"),
        ("merge_request_blocked", "MR Blocked"),
        ("ci_must_pass", "CI Required"),
        ("ci_still_running", "CI Running"),
        ("unchecked", "Open"),
        ("", "Open"),
    ];
    for (status, label) in cases {
        let mut m = mr(1, "2024-01-01");
        m.detailed_merge_status = status.to_string();
        assert_eq!(m.status_label(), label);
    }
    let mut d = mr(1, "2024-01-01");
    d.draft = true;
    assert_eq!(d.status_label(), "Draft");
}

#[test]
fn is_mergeable_only_when_mergeable() {
    let mut m = mr(1, "x");
    assert!(m.is_mergeable());
    m.detailed_merge_status = "not_approved".to_string();
    assert!(!m.is_mergeable());
}

#[test]
fn any_pipeline_prefers_the_head_pipeline() {
    let mut m = mr(1, "x");
    assert!(m.any_pipeline().is_none());
    m.pipeline = Some(pipeline("running"));
    assert_eq!(m.any_pipeline().unwrap().status, "running");
    m.head_pipeline = Some(pipeline("success"));
    assert_eq!(m.any_pipeline().unwrap().status, "success");
}

#[test]
fn formatted_updated_is_the_date() {
    assert_eq!(mr(1, "2024-03-05T10:11:12.000Z").formatted_updated(), "2024-03-05");
    assert_eq!(mr(1, "short").formatted_updated(), "short");
    assert_eq!(mr(1, "").formatted_updated(), "");
}

#[test]
fn formatted_updated_keeps_whole_characters() {
    // Ten bytes would end inside the last character: the whole text stays.
    assert_eq!(mr(1, "2024-03-0é5").formatted_updated(), "2024-03-0é5");
}

#[test]
fn diff_stats_counts_added_and_removed_lines() {
    let files = vec![
        file("--- a/a.rs\n+++ b/a.rs\n@@ -1,2 +1,2 @@\n-old\n+new\n+more\n same"),
        file("+x\n-y\n-z"),
    ];
    assert_eq!(diff_stats(&files), (3, 3));
    assert_eq!(diff_stats(&[]), (0, 0));
}

#[test]
fn client_urls() {
    assert_eq!(base_url("https://gitlab.com//"), "https://gitlab.com");
    assert_eq!(project_url("https://g", 12, "merge_requests/3/changes"), "https://g/api/v4/projects/12/merge_requests/3/changes");
    assert_eq!(
        global_mrs_url("https://g"),
        "https://g/api/v4/merge_requests?state=opened&per_page=100&order_by=updated_at&sort=desc"
    );
    assert_eq!(
        project_mrs_url("https://g", "group/sub/p"),
        "https://g/api/v4/projects/group%2Fsub%2Fp/merge_requests?state=opened&per_page=100&order_by=updated_at&sort=desc"
    );
    assert_eq!(
        membership_projects_url("https://g"),
        "https://g/api/v4/projects?membership=true&with_merge_requests_enabled=true&per_page=100&archived=false"
    );
    assert_eq!(changes_path(42), "merge_requests/42/changes");
    assert_eq!(notes_path(42), "merge_requests/42/notes?sort=asc&order_by=created_at&per_page=100");
    assert_eq!(merge_path(0), "merge_requests/0/merge");
}

#[test]
fn client_new_keeps_the_server_and_projects() {
    let c = GitLabClient::new("https://gitlab.com/", "glpat-abc", vec!["a/b".to_string()]).ok().unwrap();
    assert_eq!(c.base_url, "https://gitlab.com");
    assert_eq!(c.token, "glpat-abc");
    assert_eq!(c.projects, vec!["a/b".to_string()]);
    assert_eq!(c.project_url(5, "x"), "https://gitlab.com/api/v4/projects/5/x");
}

#[test]
fn client_new_refuses_a_token_with_control_characters() {
    match GitLabClient::new("https://gitlab.com", "bad\ntoken", vec![]) {
        Err(e) => assert_eq!(e, "Invalid access token"),
        Ok(_) => panic!("a token with a newline was accepted"),
    }
    assert!(GitLabClient::new("https://gitlab.com", "tab\tand é", vec![]).is_ok());
    assert!(GitLabClient::new("https://gitlab.com", "del\u{7f}", vec![]).is_err());
}

#[test]
fn list_request_global_or_per_project() {
    let g = GitLabClient::new("https://g", "t", vec![]).ok().unwrap();
    match g.list_request() {
        ListRequest::Global(u) => assert_eq!(u, global_mrs_url("https://g")),
        ListRequest::Projects(_) => panic!("expected the global list"),
    }
    let p = GitLabClient::new("https://g", "t", vec!["a/b".to_string(), "c".to_string()]).ok().unwrap();
    match p.list_request() {
        ListRequest::Projects(v) => {
            assert_eq!(v.len(), 2);
            assert_eq!(v[0].0, "a/b");
            assert_eq!(v[0].1, project_mrs_url("https://g", "a/b"));
            assert_eq!(v[1].0, "c");
        }
        ListRequest::Global(_) => panic!("expected per-project lists"),
    }
}

#[test]
fn global_list_steps() {
    assert_eq!(global_list_step(200), GlobalListStep::ReadBody);
    assert_eq!(global_list_step(204), GlobalListStep::ReadBody);
    assert_eq!(global_list_step(403), GlobalListStep::ViaMembership);
    assert_eq!(global_list_step(401), GlobalListStep::ApiError);
    assert_eq!(global_list_step(500), GlobalListStep::ApiError);
    assert_eq!(global_list_step(302), GlobalListStep::ApiError);
}

#[test]
fn paths_with_namespace_keeps_present_ones() {
    let v = vec![Some("a/b".to_string()), None, Some("c/d".to_string())];
    assert_eq!(paths_with_namespace(&v), vec!["a/b", "c/d"]);
}

#[test]
fn str_less_is_string_order() {
    assert!(str_less("2024-01-01", "2024-01-02"));
    assert!(!str_less("2024-01-02", "2024-01-01"));
    assert!(!str_less("a", "a"));
    assert!(str_less("", "a"));
    assert!(str_less("ab", "b"));
}

#[test]
fn sort_newest_first_is_stable() {
    let items = vec![mr(1, "2024-01-01"), mr(2, "2024-03-01"), mr(3, "2024-01-01"), mr(4, "2024-02-01")];
    let sorted = sort_newest_first(items);
    let iids: Vec<u64> = sorted.iter().map(|m| m.iid).collect();
    assert_eq!(iids, vec![2, 4, 1, 3]);
}

#[test]
fn collect_project_mrs_merges_and_sorts() {
    let r = collect_project_mrs(vec![
        Ok(vec![mr(1, "2024-01-01")]),
        Err("API error for x: 404 Not Found".to_string()),
        Ok(vec![mr(2, "2024-05-01"), mr(3, "2024-02-01")]),
    ]);
    let iids: Vec<u64> = r.ok().unwrap().iter().map(|m| m.iid).collect();
    assert_eq!(iids, vec![2, 3, 1]);
}

#[test]
fn collect_project_mrs_reports_the_last_failure_when_nothing_came() {
    let r = collect_project_mrs(vec![
        Err("first".to_string()),
        Ok(vec![]),
        Err("second".to_string()),
    ]);
    assert_eq!(r.err().unwrap(), "second");
    assert!(collect_project_mrs(vec![]).ok().unwrap().is_empty());
    assert!(collect_project_mrs(vec![Ok(vec![])]).ok().unwrap().is_empty());
}

#[test]
fn milestone_holds_its_title() {
    let m = Milestone { title: "v1".to_string() };
    assert_eq!(m.title, "v1");
}

#[test]
fn more_request_paths() {
    assert_eq!(approve_path(8), "merge_requests/8/approve");
    assert_eq!(approvals_path(8), "merge_requests/8/approvals");
    assert_eq!(pipelines_path(8), "merge_requests/8/pipelines");
    assert_eq!(current_user_url("https://g"), "https://g/api/v4/user");
}
