use mrtui::git::{
    checkout_args, checkout_outcome, existing_worktree_outcome, fetch_args, list_worktrees_args,
    parse_worktree_list, worktree_add_args, worktree_add_outcome, add_worktree_step, GitStep, WorktreeStage,
};
use mrtui::text::{
    contains_str, decimal_string, ends_with, join_strings, line_count, lines, replace_char_with,
    split_char, split_words, starts_with, strip_prefix, to_lower, trim_end_matching,
    trim_start_matching, trim_start_matching_str, trimmed,
};

#[test]
fn git_arguments() {
    assert_eq!(fetch_args("/r", "topic"), vec!["-C", "/r", "fetch", "origin", "topic"]);
    assert_eq!(
        worktree_add_args("/r", "/w", "topic", true),
        vec!["-C", "/r", "worktree", "add", "--guess-remote", "/w", "topic"]
    );
    assert_eq!(worktree_add_args("/r", "/w", "topic", false), vec!["-C", "/r", "worktree", "add", "/w", "topic"]);
    assert_eq!(checkout_args("/r", "topic"), vec!["-C", "/r", "checkout", "topic"]);
    assert_eq!(list_worktrees_args("/r"), vec!["-C", "/r", "worktree", "list", "--porcelain"]);
}

#[test]
fn git_outcomes() {
    assert_eq!(
        existing_worktree_outcome(Ok("Checked out topic".to_string()), "topic", "/w"),
        Ok("Switched to topic in existing worktree at /w".to_string())
    );
    assert_eq!(
        existing_worktree_outcome(Err("git checkout failed".to_string()), "topic", "/w"),
        Err("git checkout failed".to_string())
    );
    assert_eq!(worktree_add_outcome(true, false, "/w"), Ok("Worktree created at /w".to_string()));
    assert_eq!(worktree_add_outcome(false, true, "/w"), Ok("Worktree created at /w".to_string()));
    assert_eq!(worktree_add_outcome(false, false, "/w"), Err("git worktree add failed".to_string()));
    assert_eq!(checkout_outcome(true, "b"), Ok("Checked out b".to_string()));
    assert_eq!(checkout_outcome(false, "b"), Err("git checkout failed".to_string()));
}

#[test]
fn worktree_list_pairs_branches_with_paths() {
    let text = "worktree /home/u/repo\nHEAD abc\nbranch refs/heads/main\n\nworktree /home/u/wt/topic\nHEAD def\nbranch refs/heads/feat/topic\n\nworktree /home/u/wt/detached\nHEAD 123\ndetached\n";
    let pairs = parse_worktree_list(text);
    assert_eq!(
        pairs,
        vec![
            ("main".to_string(), "/home/u/repo".to_string()),
            ("feat/topic".to_string(), "/home/u/wt/topic".to_string()),
        ]
    );
    assert!(parse_worktree_list("").is_empty());
}

#[test]
fn text_helpers() {
    assert_eq!(trimmed("  a b \t\n"), "a b");
    assert_eq!(lines("a\r\nb\n\nc\n"), vec!["a", "b", "", "c"]);
    assert_eq!(line_count("a\nb"), 2);
    assert_eq!(line_count(""), 0);
    assert_eq!(split_char("a//b", '/'), vec!["a", "", "b"]);
    assert_eq!(split_words("  to  be\tor "), vec!["to", "be", "or"]);
    assert!(starts_with("+++ b", "+++"));
    assert!(ends_with("clip.mp4", ".mp4"));
    assert!(contains_str("hello", "ll"));
    assert!(!contains_str("hello", "lo!"));
    assert_eq!(strip_prefix("https://x", "https://"), Some("x".to_string()));
    assert_eq!(strip_prefix("x", "https://"), None);
    assert_eq!(to_lower("MiXeD É"), "mixed é");
    assert_eq!(trim_end_matching("a///", '/'), "a");
    assert_eq!(trim_start_matching("//a", '/'), "a");
    assert_eq!(trim_start_matching_str("https://https://x", "https://"), "x");
    assert_eq!(replace_char_with("a/b/c", '/', "%2F"), "a%2Fb%2Fc");
    assert_eq!(decimal_string(0), "0");
    assert_eq!(decimal_string(18446744073709551615), "18446744073709551615");
    assert_eq!(join_strings(&vec!["a".to_string(), "b".to_string()], ", "), "a, b");
    assert_eq!(join_strings(&vec![], ", "), "");
}

/// Runs the worktree steps with git answering from `answers`, in order;
/// gives the commands asked for and the outcome.
fn simulate(has_git_file: bool, answers: &[bool]) -> (Vec<Vec<String>>, Result<String, String>) {
    let mut stage = WorktreeStage::Start;
    let mut last_ok = false;
    let mut ran = Vec::new();
    loop {
        match add_worktree_step(stage, last_ok, has_git_file, "/repo", "/w", "topic") {
            GitStep::Run(args, next) => {
                last_ok = answers[ran.len()];
                ran.push(args);
                stage = next;
            }
            GitStep::Done(outcome) => return (ran, outcome),
        }
    }
}

fn strs(v: &[&str]) -> Vec<String> {
    v.iter().map(|s| s.to_string()).collect()
}

#[test]
fn worktree_steps_try_guess_remote_first() {
    let (ran, outcome) = simulate(false, &[false, true]);
    assert_eq!(
        ran,
        vec![
            strs(&["-C", "/repo", "fetch", "origin", "topic"]),
            strs(&["-C", "/repo", "worktree", "add", "--guess-remote", "/w", "topic"]),
        ]
    );
    assert_eq!(outcome, Ok("Worktree created at /w".to_string()));
}

#[test]
fn worktree_steps_fall_back_to_the_plain_form() {
    let (ran, outcome) = simulate(false, &[true, false, true]);
    assert_eq!(ran.len(), 3);
    assert_eq!(ran[2], strs(&["-C", "/repo", "worktree", "add", "/w", "topic"]));
    assert_eq!(outcome, Ok("Worktree created at /w".to_string()));
    let (_, failed) = simulate(false, &[true, false, false]);
    assert_eq!(failed, Err("git worktree add failed".to_string()));
}

#[test]
fn worktree_steps_reuse_an_existing_worktree() {
    let (ran, outcome) = simulate(true, &[false, true]);
    assert_eq!(
        ran,
        vec![strs(&["-C", "/w", "fetch", "origin", "topic"]), strs(&["-C", "/w", "checkout", "topic"])]
    );
    assert_eq!(outcome, Ok("Switched to topic in existing worktree at /w".to_string()));
    let (_, failed) = simulate(true, &[true, false]);
    assert_eq!(failed, Err("git checkout failed".to_string()));
}
