//! What the worktree commands are made of, what their outcomes mean, and how
//! `git worktree list --porcelain` is read. The commands are run by the application.
use vstd::prelude::*;

use crate::text::{has_prefix, lines, lines_of, push_str, strip_prefix};

verus! {

/// A string holding a copy of `s`.
fn owned(s: &str) -> (r: String)
    ensures
        r@ == s@,
{
    let mut r = String::new();
    push_str(&mut r, s);
    r
}

/// The arguments of `git -C {repo} fetch origin {branch}`.
pub fn fetch_args(repo_path: &str, branch: &str) -> (r: Vec<String>)
    ensures
        r@.map_values(|x: String| x@) == seq!["-C"@, repo_path@, "fetch"@, "origin"@, branch@],
{
    let r = vec![owned("-C"), owned(repo_path), owned("fetch"), owned("origin"), owned(branch)];
    assert(r@.map_values(|x: String| x@) =~= seq!["-C"@, repo_path@, "fetch"@, "origin"@, branch@]);
    r
}

/// The arguments of `git -C {repo} worktree add [--guess-remote] {path} {branch}`.
pub fn worktree_add_args(repo_path: &str, worktree_path: &str, branch: &str, guess_remote: bool) -> (r: Vec<String>)
    ensures
        guess_remote ==> r@.map_values(|x: String| x@) == seq![
            "-C"@,
            repo_path@,
            "worktree"@,
            "add"@,
            "--guess-remote"@,
            worktree_path@,
            branch@,
        ],
        !guess_remote ==> r@.map_values(|x: String| x@) == seq![
            "-C"@,
            repo_path@,
            "worktree"@,
            "add"@,
            worktree_path@,
            branch@,
        ],
{
    let mut r = vec![owned("-C"), owned(repo_path), owned("worktree"), owned("add")];
    if guess_remote {
        r.push(owned("--guess-remote"));
    }
    r.push(owned(worktree_path));
    r.push(owned(branch));
    proof {
        if guess_remote {
            assert(r@.map_values(|x: String| x@) =~= seq![
                "-C"@,
                repo_path@,
                "worktree"@,
                "add"@,
                "--guess-remote"@,
                worktree_path@,
                branch@,
            ]);
        } else {
            assert(r@.map_values(|x: String| x@) =~= seq![
                "-C"@,
                repo_path@,
                "worktree"@,
                "add"@,
                worktree_path@,
                branch@,
            ]);
        }
    }
    r
}

/// The arguments of `git -C {repo} checkout {branch}`.
pub fn checkout_args(repo_path: &str, branch: &str) -> (r: Vec<String>)
    ensures
        r@.map_values(|x: String| x@) == seq!["-C"@, repo_path@, "checkout"@, branch@],
{
    let r = vec![owned("-C"), owned(repo_path), owned("checkout"), owned(branch)];
    assert(r@.map_values(|x: String| x@) =~= seq!["-C"@, repo_path@, "checkout"@, branch@]);
    r
}

/// The arguments of `git -C {repo} worktree list --porcelain`.
pub fn list_worktrees_args(repo_path: &str) -> (r: Vec<String>)
    ensures
        r@.map_values(|x: String| x@) == seq!["-C"@, repo_path@, "worktree"@, "list"@, "--porcelain"@],
{
    let r = vec![owned("-C"), owned(repo_path), owned("worktree"), owned("list"), owned("--porcelain")];
    assert(r@.map_values(|x: String| x@) =~= seq![
        "-C"@,
        repo_path@,
        "worktree"@,
        "list"@,
        "--porcelain"@,
    ]);
    r
}

/// The outcome where the path already holds a worktree: the checkout there, its
/// success reported as a switch.
pub fn existing_worktree_outcome(checkout: Result<String, String>, branch: &str, worktree_path: &str) -> (r: Result<String, String>)
    ensures
        checkout matches Err(e) ==> (r matches Err(f) && f@ == e@),
        checkout is Ok ==> (r matches Ok(m) && m@ == "Switched to "@ + branch@
            + " in existing worktree at "@ + worktree_path@),
{
    match checkout {
        Ok(_) => {
            let mut m = owned("Switched to ");
            push_str(&mut m, branch);
            push_str(&mut m, " in existing worktree at ");
            push_str(&mut m, worktree_path);
            Ok(m)
        },
        Err(e) => Err(e),
    }
}

/// The outcome of adding a worktree, from whether `--guess-remote` worked and,
/// where it did not, whether the plain form did.
pub fn worktree_add_outcome(guess_remote_ok: bool, plain_ok: bool, worktree_path: &str) -> (r: Result<String, String>)
    ensures
        guess_remote_ok || plain_ok ==> (r matches Ok(m) && m@ == "Worktree created at "@ + worktree_path@),
        !guess_remote_ok && !plain_ok ==> (r matches Err(e) && e@ == "git worktree add failed"@),
{
    if guess_remote_ok || plain_ok {
        let mut m = owned("Worktree created at ");
        push_str(&mut m, worktree_path);
        Ok(m)
    } else {
        Err(owned("git worktree add failed"))
    }
}

/// The outcome of an in-place checkout.
pub fn checkout_outcome(ok: bool, branch: &str) -> (r: Result<String, String>)
    ensures
        ok ==> (r matches Ok(m) && m@ == "Checked out "@ + branch@),
        !ok ==> (r matches Err(e) && e@ == "git checkout failed"@),
{
    if ok {
        let mut m = owned("Checked out ");
        push_str(&mut m, branch);
        Ok(m)
    } else {
        Err(owned("git checkout failed"))
    }
}

/// The view of a list of arguments.
pub open spec fn args_view(args: Vec<String>) -> Seq<Seq<char>> {
    args@.map_values(|x: String| x@)
}

/// Where the making of a worktree stands.
#[derive(Clone, Copy, Debug, PartialEq, Eq, Structural)]
pub enum WorktreeStage {
    /// Nothing has run yet.
    Start,
    /// The path holds a worktree and the branch was fetched there.
    ExistingFetched,
    /// The checkout in the existing worktree ran.
    ExistingCheckedOut,
    /// The branch was fetched in the repository.
    Fetched,
    /// `worktree add --guess-remote` ran.
    GuessRemoteTried,
    /// The plain `worktree add` ran.
    PlainTried,
}

/// What to do next: run git with these arguments and report back at the
/// given stage, or stop with the outcome.
#[derive(Debug)]
pub enum GitStep {
    Run(Vec<String>, WorktreeStage),
    Done(Result<String, String>),
}

/// One step of making a worktree for `branch` at `worktree_path`: where the
/// path already holds a worktree (`has_git_file`, a `.git` file there), fetch
/// and check the branch out in it; else fetch in the repository, try
/// `worktree add --guess-remote`, and where that fails the plain form.
/// `last_ok` is whether the command of the step before succeeded; fetches
/// may fail without stopping anything.
pub fn add_worktree_step(
    stage: WorktreeStage,
    last_ok: bool,
    has_git_file: bool,
    repo_path: &str,
    worktree_path: &str,
    branch: &str,
) -> (r: GitStep)
    ensures
        match stage {
            WorktreeStage::Start => if has_git_file {
                r matches GitStep::Run(a, s) && s == WorktreeStage::ExistingFetched
                    && args_view(a) == seq!["-C"@, worktree_path@, "fetch"@, "origin"@, branch@]
            } else {
                r matches GitStep::Run(a, s) && s == WorktreeStage::Fetched
                    && args_view(a) == seq!["-C"@, repo_path@, "fetch"@, "origin"@, branch@]
            },
            WorktreeStage::ExistingFetched => r matches GitStep::Run(a, s) && s
                == WorktreeStage::ExistingCheckedOut && args_view(a) == seq![
                "-C"@,
                worktree_path@,
                "checkout"@,
                branch@,
            ],
            WorktreeStage::ExistingCheckedOut => if last_ok {
                r matches GitStep::Done(Ok(m)) && m@ == "Switched to "@ + branch@
                    + " in existing worktree at "@ + worktree_path@
            } else {
                r matches GitStep::Done(Err(e)) && e@ == "git checkout failed"@
            },
            WorktreeStage::Fetched => r matches GitStep::Run(a, s) && s == WorktreeStage::GuessRemoteTried
                && args_view(a) == seq![
                "-C"@,
                repo_path@,
                "worktree"@,
                "add"@,
                "--guess-remote"@,
                worktree_path@,
                branch@,
            ],
            WorktreeStage::GuessRemoteTried => if last_ok {
                r matches GitStep::Done(Ok(m)) && m@ == "Worktree created at "@ + worktree_path@
            } else {
                r matches GitStep::Run(a, s) && s == WorktreeStage::PlainTried && args_view(a) == seq![
                    "-C"@,
                    repo_path@,
                    "worktree"@,
                    "add"@,
                    worktree_path@,
                    branch@,
                ]
            },
            WorktreeStage::PlainTried => if last_ok {
                r matches GitStep::Done(Ok(m)) && m@ == "Worktree created at "@ + worktree_path@
            } else {
                r matches GitStep::Done(Err(e)) && e@ == "git worktree add failed"@
            },
        },
{
    match stage {
        WorktreeStage::Start => if has_git_file {
            GitStep::Run(fetch_args(worktree_path, branch), WorktreeStage::ExistingFetched)
        } else {
            GitStep::Run(fetch_args(repo_path, branch), WorktreeStage::Fetched)
        },
        WorktreeStage::ExistingFetched => GitStep::Run(
            checkout_args(worktree_path, branch),
            WorktreeStage::ExistingCheckedOut,
        ),
        WorktreeStage::ExistingCheckedOut => GitStep::Done(
            existing_worktree_outcome(checkout_outcome(last_ok, branch), branch, worktree_path),
        ),
        WorktreeStage::Fetched => GitStep::Run(
            worktree_add_args(repo_path, worktree_path, branch, true),
            WorktreeStage::GuessRemoteTried,
        ),
        WorktreeStage::GuessRemoteTried => if last_ok {
            GitStep::Done(worktree_add_outcome(true, false, worktree_path))
        } else {
            GitStep::Run(worktree_add_args(repo_path, worktree_path, branch, false), WorktreeStage::PlainTried)
        },
        WorktreeStage::PlainTried => GitStep::Done(worktree_add_outcome(false, last_ok, worktree_path)),
    }
}

/// Reads porcelain lines: a `worktree {path}` line opens an entry, a
/// `branch refs/heads/{name}` line closes the open one as `(name, path)`.
pub open spec fn scan_worktrees(ls: Seq<Seq<char>>) -> (Seq<(Seq<char>, Seq<char>)>, Option<Seq<char>>)
    decreases ls.len(),
{
    if ls.len() == 0 {
        (seq![], None)
    } else {
        let (pairs, cur) = scan_worktrees(ls.drop_last());
        let l = ls.last();
        if has_prefix(l, "worktree "@) {
            (pairs, Some(l.skip("worktree "@.len() as int)))
        } else if has_prefix(l, "branch refs/heads/"@) {
            match cur {
                Some(p) => (pairs.push((l.skip("branch refs/heads/"@.len() as int), p)), None),
                None => (pairs, None),
            }
        } else {
            (pairs, cur)
        }
    }
}

/// Line `w` is `worktree {path}`, line `b` is `branch refs/heads/{branch}`,
/// `w` comes before `b`, and no `worktree` line stands between them: `b`
/// belongs to the block that `w` opens.
pub open spec fn pair_from(ls: Seq<Seq<char>>, w: int, b: int, pair: (Seq<char>, Seq<char>)) -> bool {
    &&& 0 <= w < b < ls.len()
    &&& has_prefix(ls[w], "worktree "@) && ls[w].skip("worktree "@.len() as int) == pair.1
    &&& has_prefix(ls[b], "branch refs/heads/"@) && ls[b].skip("branch refs/heads/"@.len() as int) == pair.0
    &&& forall|k: int| w < k < b ==> !has_prefix(#[trigger] ls[k], "worktree "@)
}

/// Line `w` is `worktree {path}` and no `worktree` line follows it.
pub open spec fn opened_at(ls: Seq<Seq<char>>, w: int, path: Seq<char>) -> bool {
    &&& 0 <= w < ls.len()
    &&& has_prefix(ls[w], "worktree "@) && ls[w].skip("worktree "@.len() as int) == path
    &&& forall|k: int| w < k < ls.len() ==> !has_prefix(#[trigger] ls[k], "worktree "@)
}

/// Some `branch` line of `ls` and the closest `worktree` line before it
/// make the pair.
pub open spec fn paired_in(ls: Seq<Seq<char>>, pair: (Seq<char>, Seq<char>)) -> bool {
    exists|w: int, b: int| #[trigger] pair_from(ls, w, b, pair)
}

/// The last `worktree` line of `ls` names `path`.
pub open spec fn last_opened(ls: Seq<Seq<char>>, path: Seq<char>) -> bool {
    exists|w: int| #[trigger] opened_at(ls, w, path)
}

/// Each `(branch, path)` pair read from a listing pairs a `branch` line with
/// the closest `worktree` line before it (whatever blocks without a branch
/// line came first), and the entry still open is the last `worktree` line's.
pub proof fn lemma_worktree_pair_origin(ls: Seq<Seq<char>>)
    ensures
        forall|j: int| 0 <= j < scan_worktrees(ls).0.len() ==> #[trigger] paired_in(ls, scan_worktrees(ls).0[j]),
        scan_worktrees(ls).1 matches Some(p) ==> last_opened(ls, p),
    decreases ls.len(),
{
    if ls.len() > 0 {
        let init = ls.drop_last();
        lemma_worktree_pair_origin(init);
        let pairs = scan_worktrees(init).0;
        let cur = scan_worktrees(init).1;
        let res = scan_worktrees(ls);
        let n = ls.len() - 1;
        let l = ls.last();
        assert forall|j: int| 0 <= j < pairs.len() implies #[trigger] paired_in(ls, pairs[j]) by {
            assert(paired_in(init, pairs[j]));
            let (w, b) = choose|w: int, b: int| #[trigger] pair_from(init, w, b, pairs[j]);
            assert forall|k: int| w < k < b implies !has_prefix(#[trigger] ls[k], "worktree "@) by {
                assert(ls[k] == init[k]);
            }
            assert(ls[w] == init[w] && ls[b] == init[b]);
            assert(pair_from(ls, w, b, pairs[j]));
        }
        if has_prefix(l, "worktree "@) {
            assert(res.0 == pairs);
            assert(res.1 == Some(l.skip("worktree "@.len() as int)));
            assert(opened_at(ls, n, l.skip("worktree "@.len() as int)));
        } else if has_prefix(l, "branch refs/heads/"@) {
            if let Some(p) = cur {
                assert(last_opened(init, p));
                let w = choose|w: int| #[trigger] opened_at(init, w, p);
                assert forall|k: int| w < k < n implies !has_prefix(#[trigger] ls[k], "worktree "@) by {
                    assert(ls[k] == init[k]);
                }
                assert(ls[w] == init[w]);
                let np = pairs.push((l.skip("branch refs/heads/"@.len() as int), p));
                assert(res.0 == np);
                assert(res.1 is None);
                assert(pair_from(ls, w, n, np[pairs.len() as int]));
                assert forall|j: int| 0 <= j < res.0.len() implies #[trigger] paired_in(ls, res.0[j]) by {
                    if j < pairs.len() {
                        assert(res.0[j] == pairs[j]);
                        assert(paired_in(ls, pairs[j]));
                    } else {
                        assert(pair_from(ls, w, n, res.0[j]));
                    }
                }
            } else {
                assert(res.0 == pairs);
                assert(res.1 is None);
            }
        } else {
            assert(res.0 == pairs);
            assert(res.1 == cur);
            if let Some(p) = cur {
                assert(last_opened(init, p));
                let w = choose|w: int| #[trigger] opened_at(init, w, p);
                assert forall|k: int| w < k < ls.len() implies !has_prefix(#[trigger] ls[k], "worktree "@) by {
                    if k < n {
                        assert(ls[k] == init[k]);
                    }
                }
                assert(ls[w] == init[w]);
                assert(opened_at(ls, w, p));
            }
        }
    }
}

/// The `(branch, path)` pairs of a porcelain worktree listing, in order.
pub open spec fn worktree_pairs(text: Seq<char>) -> Seq<(Seq<char>, Seq<char>)> {
    scan_worktrees(lines_of(text)).0
}

/// The branch-to-path map of the pairs: a later pair for a branch wins.
pub open spec fn pairs_map(ps: Seq<(Seq<char>, Seq<char>)>) -> Map<Seq<char>, Seq<char>>
    decreases ps.len(),
{
    if ps.len() == 0 {
        Map::empty()
    } else {
        pairs_map(ps.drop_last()).insert(ps.last().0, ps.last().1)
    }
}

/// The values of string pairs.
pub open spec fn pair_views(ps: Seq<(String, String)>) -> Seq<(Seq<char>, Seq<char>)> {
    ps.map_values(|p: (String, String)| (p.0@, p.1@))
}

/// Reads `git worktree list --porcelain` output into `(branch, path)` pairs,
/// in the order the listing gives them.
pub fn parse_worktree_list(text: &str) -> (r: Vec<(String, String)>)
    ensures
        pair_views(r@) == worktree_pairs(text@),
{
    let ls = lines(text);
    let ghost lv = ls@.map_values(|x: String| x@);
    let mut pairs: Vec<(String, String)> = Vec::new();
    let mut current: Option<String> = None;
    let mut i: usize = 0;
    while i < ls.len()
        invariant
            i <= ls@.len(),
            lv == ls@.map_values(|x: String| x@),
            lv == lines_of(text@),
            pair_views(pairs@) == scan_worktrees(lv.take(i as int)).0,
            match current {
                Some(c) => scan_worktrees(lv.take(i as int)).1 == Some(c@),
                None => scan_worktrees(lv.take(i as int)).1 is None,
            },
        decreases ls.len() - i,
    {
        proof {
            assert(lv.take(i + 1).drop_last() =~= lv.take(i as int));
            assert(lv.take(i + 1).last() == ls@[i as int]@);
        }
        let line = ls[i].as_str();
        match strip_prefix(line, "worktree ") {
            Some(path) => {
                current = Some(path);
            },
            None => match strip_prefix(line, "branch refs/heads/") {
                Some(branch) => {
                    let taken = current;
                    current = None;
                    match taken {
                        Some(path) => {
                            let ghost before = pairs@;
                            pairs.push((branch, path));
                            assert(pair_views(pairs@) =~= pair_views(before).push((branch@, path@)));
                        },
                        None => {},
                    }
                },
                None => {},
            },
        }
        i = i + 1;
    }
    assert(lv.take(i as int) =~= lv);
    pairs
}

} // verus!
