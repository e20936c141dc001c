//! The application's state and how it answers to background results.
//!
//! Work that leaves the process (HTTP, git, timers) is asked for with an
//! `AppCommand`; its result comes back as an `AppEvent`.
use vstd::prelude::*;

use crate::config::Config;
use crate::gitlab::types::{CurrentUser, FileDiff, MergeRequest, Note, Pipeline, User};
use crate::text::{
    contains_str, decimal, decimal_string, has_infix, lowercase, split_words, to_lower, words_of,
};
use crate::tui::views::detail_view::entry_for;

verus! {

/// The screen shown.
#[derive(Clone, Copy, Debug, PartialEq, Eq, Structural)]
pub enum AppView {
    MrList,
    MrDetail,
    Settings,
}

/// Work that the application is asked to start.
#[derive(Clone, Copy, Debug, PartialEq, Eq, Structural)]
pub enum AppCommand {
    /// Fetch the open merge requests.
    LoadMrs,
    /// Fetch the diff of a merge request (project id, iid).
    LoadDiff(u64, u64),
    /// Fetch the comments of a merge request (project id, iid).
    LoadNotes(u64, u64),
    /// Merge a merge request.
    Merge(u64, u64),
    /// Approve a merge request.
    Approve(u64, u64),
    /// Fetch the pipeline of each merge request in the list (`App::mr_keys`).
    LoadPipelines,
    /// Fetch the approvers of each merge request in the list (`App::mr_keys`).
    LoadApprovals,
    /// Fetch the user the token belongs to.
    LoadUser,
    /// List the git worktrees of the repository (`App::repo_path`).
    CheckWorktrees,
    /// Connect a new client with the settings in `App::config`, then report
    /// with `App::connection_result`.
    Connect,
    /// Open the current merge request's web page (with the configured browser, if any).
    OpenInBrowser,
    /// Open the images and videos linked in the current merge request's
    /// description (`detail_view::description_lines`), each in the browser.
    OpenMedia,
}

/// A result of background work.
pub enum AppEvent {
    MrsLoaded(Result<Vec<MergeRequest>, String>),
    DiffLoaded(Result<Vec<FileDiff>, String>),
    /// The comments of the merge request shown.
    NotesLoaded(Result<Vec<Note>, String>),
    MergeDone(Result<(), String>),
    ApproveDone(Result<(), String>),
    /// Approvers keyed by (project id, iid), as the requests came back.
    ApprovalsLoaded(Vec<((u64, u64), Vec<User>)>),
    /// The most recent pipeline keyed by (project id, iid), as the requests
    /// came back (`None` where a merge request has none).
    PipelinesLoaded(Vec<((u64, u64), Option<Pipeline>)>),
    WorktreeCreated(Result<String, String>),
    /// Worktree paths keyed by branch.
    WorktreesLoaded(Vec<(String, String)>),
    UserLoaded(Result<CurrentUser, String>),
    ConfigSaved(Config),
    /// A git task asks the terminal interface to step aside.
    GitSuspendRequest,
    /// The git task is done.
    GitResumed,
}

/// The application state.
pub struct App {
    pub view: AppView,
    pub mrs: Vec<MergeRequest>,
    pub loading: bool,
    pub local_search: String,
    pub local_search_active: bool,
    pub selected_row: usize,
    pub current_mr: Option<MergeRequest>,
    pub current_notes: Vec<Note>,
    pub current_diff: Vec<FileDiff>,
    pub diff_loading: bool,
    pub error: Option<String>,
    pub status_msg: Option<String>,
    pub show_help: bool,
    pub help_scroll: u16,
    pub current_username: Option<String>,
    pub current_user_id: Option<u64>,
    pub approvals: Vec<((u64, u64), Vec<User>)>,
    pub pipelines: Vec<((u64, u64), Pipeline)>,
    pub checked_out_worktrees: Vec<(String, String)>,
    pub config: Config,
    /// Whether a GitLab client is connected.
    pub connected: bool,
    pub repo_path: String,
}

/// No two entries share a key.
pub open spec fn keys_unique<V>(entries: Seq<((u64, u64), V)>) -> bool {
    forall|i: int, j: int| 0 <= i < j < entries.len() ==> entries[i].0 != entries[j].0
}

/// The value of the last entry with the given key: what a map holds for
/// the key once the entries have been inserted in order.
pub open spec fn last_entry_for<V>(entries: Seq<((u64, u64), V)>, key: (u64, u64)) -> Option<V>
    decreases entries.len(),
{
    if entries.len() == 0 {
        None
    } else {
        match last_entry_for(entries.skip(1), key) {
            Some(v) => Some(v),
            None => if entries[0].0 == key {
                Some(entries[0].1)
            } else {
                None
            },
        }
    }
}

/// The value of the last entry with the given key that holds one: what a
/// map holds for the key once the present values have been inserted in
/// order.
pub open spec fn last_present_for<V>(entries: Seq<((u64, u64), Option<V>)>, key: (u64, u64)) -> Option<V>
    decreases entries.len(),
{
    if entries.len() == 0 {
        None
    } else {
        match last_present_for(entries.skip(1), key) {
            Some(v) => Some(v),
            None => if entries[0].0 == key {
                entries[0].1
            } else {
                None
            },
        }
    }
}

/// The first entry with a key is missing exactly when no entry has it.
proof fn lemma_entry_for_none<V>(entries: Seq<((u64, u64), V)>, key: (u64, u64))
    ensures
        entry_for(entries, key) is None <==> forall|i: int| 0 <= i < entries.len() ==> entries[i].0 != key,
    decreases entries.len(),
{
    if entries.len() > 0 {
        lemma_entry_for_none(entries.skip(1), key);
        assert forall|i: int| 1 <= i < entries.len() implies entries[i] == entries.skip(1)[i - 1] by {}
        if entry_for(entries, key) is None {
            assert forall|i: int| 0 <= i < entries.len() implies entries[i].0 != key by {
                if i > 0 {
                    assert(entries[i] == entries.skip(1)[i - 1]);
                }
            }
        }
    }
}

/// Appending an entry changes the first entry of its key only where there
/// was none.
proof fn lemma_entry_for_push<V>(entries: Seq<((u64, u64), V)>, e: ((u64, u64), V), key: (u64, u64))
    ensures
        entry_for(entries.push(e), key) == (match entry_for(entries, key) {
            Some(v) => Some(v),
            None => if e.0 == key {
                Some(e.1)
            } else {
                None
            },
        }),
    decreases entries.len(),
{
    if entries.len() > 0 {
        assert(entries.push(e).skip(1) =~= entries.skip(1).push(e));
        assert(entries.push(e)[0] == entries[0]);
        lemma_entry_for_push(entries.skip(1), e, key);
    } else {
        assert(entries.push(e).skip(1) =~= Seq::<((u64, u64), V)>::empty());
        assert(entries.push(e)[0] == e);
        assert(entry_for(Seq::<((u64, u64), V)>::empty(), key) is None);
    }
}

/// Whether an entry has the key.
fn has_key<V>(entries: &Vec<((u64, u64), V)>, key: (u64, u64)) -> (r: bool)
    ensures
        r <==> exists|i: int| 0 <= i < entries@.len() && entries@[i].0 == key,
{
    let mut i: usize = 0;
    while i < entries.len()
        invariant
            i <= entries@.len(),
            forall|j: int| 0 <= j < i ==> entries@[j].0 != key,
        decreases entries.len() - i,
    {
        if entries[i].0.0 == key.0 && entries[i].0.1 == key.1 {
            return true;
        }
        i = i + 1;
    }
    false
}

/// The entries with, for each key, only the value of its last entry, as a
/// map keeps them when they are inserted in order.
pub fn keep_last<V>(entries: Vec<((u64, u64), V)>) -> (r: Vec<((u64, u64), V)>)
    ensures
        keys_unique(r@),
        forall|k: (u64, u64)| #[trigger] entry_for(r@, k) == last_entry_for(entries@, k),
{
    let ghost all = entries@;
    let mut rest = entries;
    let mut r: Vec<((u64, u64), V)> = Vec::new();
    assert(all.skip(all.len() as int) =~= Seq::<((u64, u64), V)>::empty());
    while rest.len() > 0
        invariant
            rest@ =~= all.take(rest@.len() as int),
            rest@.len() <= all.len(),
            keys_unique(r@),
            forall|k: (u64, u64)| #[trigger] entry_for(r@, k) == last_entry_for(all.skip(rest@.len() as int), k),
        decreases rest@.len(),
    {
        let e = rest.pop().unwrap();
        let n = rest.len();
        let ghost old_r = r@;
        proof {
            assert(all.skip(n as int).skip(1) =~= all.skip(n + 1));
            assert(all.skip(n as int)[0] == e);
        }
        if !has_key(&r, e.0) {
            proof {
                lemma_entry_for_none(old_r, e.0);
                assert forall|k: (u64, u64)| #[trigger] entry_for(old_r.push(e), k) == last_entry_for(all.skip(n as int), k) by {
                    lemma_entry_for_push(old_r, e, k);
                }
            }
            r.push(e);
        } else {
            proof {
                lemma_entry_for_none(old_r, e.0);
                assert forall|k: (u64, u64)| #[trigger] entry_for(old_r, k) == last_entry_for(all.skip(n as int), k) by {
                    assert(entry_for(old_r, k) == last_entry_for(all.skip(n + 1), k));
                }
            }
        }
    }
    assert(all.skip(0) =~= all);
    r
}

/// The present values of the entries with, for each key, only the value of
/// its last entry that holds one, as a map keeps them when the present
/// values are inserted in order.
pub fn keep_last_present<V>(entries: Vec<((u64, u64), Option<V>)>) -> (r: Vec<((u64, u64), V)>)
    ensures
        keys_unique(r@),
        forall|k: (u64, u64)| #[trigger] entry_for(r@, k) == last_present_for(entries@, k),
{
    let ghost all = entries@;
    let mut rest = entries;
    let mut r: Vec<((u64, u64), V)> = Vec::new();
    assert(all.skip(all.len() as int) =~= Seq::<((u64, u64), Option<V>)>::empty());
    while rest.len() > 0
        invariant
            rest@ =~= all.take(rest@.len() as int),
            rest@.len() <= all.len(),
            keys_unique(r@),
            forall|k: (u64, u64)| #[trigger] entry_for(r@, k) == last_present_for(all.skip(rest@.len() as int), k),
        decreases rest@.len(),
    {
        let (key, value) = rest.pop().unwrap();
        let n = rest.len();
        let ghost old_r = r@;
        proof {
            assert(all.skip(n as int).skip(1) =~= all.skip(n + 1));
            assert(all.skip(n as int)[0] == (key, value));
        }
        match value {
            Some(v) => {
                if !has_key(&r, key) {
                    proof {
                        lemma_entry_for_none(old_r, key);
                        assert forall|k: (u64, u64)| #[trigger] entry_for(old_r.push((key, v)), k) == last_present_for(all.skip(n as int), k) by {
                            lemma_entry_for_push(old_r, (key, v), k);
                        }
                    }
                    r.push((key, v));
                } else {
                    proof {
                        lemma_entry_for_none(old_r, key);
                        assert forall|k: (u64, u64)| #[trigger] entry_for(old_r, k) == last_present_for(all.skip(n as int), k) by {
                            assert(entry_for(old_r, k) == last_present_for(all.skip(n + 1), k));
                        }
                    }
                }
            },
            None => {
                proof {
                    assert forall|k: (u64, u64)| #[trigger] entry_for(old_r, k) == last_present_for(all.skip(n as int), k) by {
                        assert(entry_for(old_r, k) == last_present_for(all.skip(n + 1), k));
                    }
                }
            },
        }
    }
    assert(all.skip(0) =~= all);
    r
}

/// The pipelines that were loaded, one per merge request: for each, the
/// last one that came back (a merge request whose request brought none has
/// no entry).
pub fn collect_pipelines(results: Vec<((u64, u64), Option<Pipeline>)>) -> (r: Vec<((u64, u64), Pipeline)>)
    ensures
        keys_unique(r@),
        forall|k: (u64, u64)| #[trigger] entry_for(r@, k) == last_present_for(results@, k),
{
    keep_last_present(results)
}

/// The approvers that were loaded, one list per merge request: for each,
/// the last list that came back.
pub fn collect_approvals(results: Vec<((u64, u64), Vec<User>)>) -> (r: Vec<((u64, u64), Vec<User>)>)
    ensures
        keys_unique(r@),
        forall|k: (u64, u64)| #[trigger] entry_for(r@, k) == last_entry_for(results@, k),
{
    keep_last(results)
}

/// A string holding `s`.
fn owned(s: &str) -> (r: String)
    ensures
        r@ == s@,
{
    let mut r = String::new();
    crate::text::push_str(&mut r, s);
    r
}

/// Whether one search word occurs in a merge request: in the lower-case
/// title, source branch, author user name or name, status label, milestone
/// title or one of the labels, or in the decimal iid.
pub open spec fn token_matches(mr: MergeRequest, t: Seq<char>) -> bool {
    ||| has_infix(lowercase(mr.title@), t)
    ||| has_infix(lowercase(mr.source_branch@), t)
    ||| has_infix(lowercase(mr.author.username@), t)
    ||| has_infix(lowercase(mr.author.name@), t)
    ||| has_infix(decimal(mr.iid as nat), t)
    ||| has_infix(lowercase(mr.spec_status_label()), t)
    ||| (mr.milestone matches Some(m) && has_infix(lowercase(m.title@), t))
    ||| exists|i: int|
        0 <= i < mr.labels@.len() && has_infix(lowercase(#[trigger] mr.labels@[i]@), t)
}

/// A word matches a merge request when it occurs in the lower-case title,
/// source branch, author user name or name, status label, milestone title
/// or any label, whatever its position, or in the decimal iid; and only then.
pub proof fn lemma_token_match_fields(mr: MergeRequest, t: Seq<char>)
    ensures
        has_infix(lowercase(mr.title@), t) ==> token_matches(mr, t),
        has_infix(lowercase(mr.source_branch@), t) ==> token_matches(mr, t),
        has_infix(lowercase(mr.author.username@), t) ==> token_matches(mr, t),
        has_infix(lowercase(mr.author.name@), t) ==> token_matches(mr, t),
        has_infix(decimal(mr.iid as nat), t) ==> token_matches(mr, t),
        has_infix(lowercase(mr.spec_status_label()), t) ==> token_matches(mr, t),
        (mr.milestone matches Some(m) && has_infix(lowercase(m.title@), t)) ==> token_matches(mr, t),
        forall|i: int|
            0 <= i < mr.labels@.len() && has_infix(lowercase(#[trigger] mr.labels@[i]@), t) ==> token_matches(mr, t),
        token_matches(mr, t) ==> {
            ||| has_infix(lowercase(mr.title@), t)
            ||| has_infix(lowercase(mr.source_branch@), t)
            ||| has_infix(lowercase(mr.author.username@), t)
            ||| has_infix(lowercase(mr.author.name@), t)
            ||| has_infix(decimal(mr.iid as nat), t)
            ||| has_infix(lowercase(mr.spec_status_label()), t)
            ||| (mr.milestone matches Some(m) && has_infix(lowercase(m.title@), t))
            ||| exists|i: int| 0 <= i < mr.labels@.len() && has_infix(lowercase(#[trigger] mr.labels@[i]@), t)
        },
{
}

/// Whether every white-space separated word of the query matches.
pub open spec fn mr_matches_query(mr: MergeRequest, q: Seq<char>) -> bool {
    forall|i: int| 0 <= i < words_of(q).len() ==> token_matches(mr, #[trigger] words_of(q)[i])
}

/// The merge requests that match a lower-cased query, in order.
pub open spec fn matching_mrs(mrs: Seq<MergeRequest>, q: Seq<char>) -> Seq<MergeRequest>
    decreases mrs.len(),
{
    if mrs.len() == 0 {
        seq![]
    } else {
        let rest = matching_mrs(mrs.drop_last(), q);
        if mr_matches_query(mrs.last(), q) {
            rest.push(mrs.last())
        } else {
            rest
        }
    }
}

proof fn lemma_matching_at_most(mrs: Seq<MergeRequest>, q: Seq<char>)
    ensures
        matching_mrs(mrs, q).len() <= mrs.len(),
    decreases mrs.len(),
{
    if mrs.len() > 0 {
        lemma_matching_at_most(mrs.drop_last(), q);
    }
}

/// The list never shows more merge requests than it holds.
pub proof fn lemma_visible_at_most(mrs: Seq<MergeRequest>, search: Seq<char>)
    ensures
        visible_spec(mrs, search).len() <= mrs.len(),
{
    if search.len() > 0 {
        lemma_matching_at_most(mrs, lowercase(search));
    }
}

proof fn lemma_matching_is_filter(mrs: Seq<MergeRequest>, q: Seq<char>)
    ensures
        matching_mrs(mrs, q) == mrs.filter(|m: MergeRequest| mr_matches_query(m, q)),
    decreases mrs.len(),
{
    reveal(Seq::filter);
    if mrs.len() > 0 {
        lemma_matching_is_filter(mrs.drop_last(), q);
    } else {
        assert(matching_mrs(mrs, q) =~= mrs.filter(|m: MergeRequest| mr_matches_query(m, q)));
    }
}

proof fn lemma_matching_contains(mrs: Seq<MergeRequest>, q: Seq<char>, x: MergeRequest)
    requires
        matching_mrs(mrs, q).contains(x),
    ensures
        mrs.contains(x),
        mr_matches_query(x, q),
    decreases mrs.len(),
{
    let rest = matching_mrs(mrs.drop_last(), q);
    if rest.contains(x) {
        lemma_matching_contains(mrs.drop_last(), q, x);
        let k = choose|k: int| 0 <= k < mrs.drop_last().len() && mrs.drop_last()[k] == x;
        assert(mrs[k] == x);
    } else {
        let k = choose|k: int| 0 <= k < matching_mrs(mrs, q).len() && matching_mrs(mrs, q)[k] == x;
        assert(mr_matches_query(mrs.last(), q) && k == rest.len());
        assert(mrs[mrs.len() - 1] == x);
    }
}

/// The merge requests the list shows: all of them without a search, else
/// those that match the lower-case search.
pub open spec fn visible_spec(mrs: Seq<MergeRequest>, search: Seq<char>) -> Seq<MergeRequest> {
    if search.len() == 0 {
        mrs
    } else {
        matching_mrs(mrs, lowercase(search))
    }
}

/// Without a search the list shows every merge request; with one it shows
/// those, and only those, that match the lower-case search, in their order.
pub proof fn lemma_visible_are_matches(mrs: Seq<MergeRequest>, search: Seq<char>)
    ensures
        search.len() == 0 ==> visible_spec(mrs, search) == mrs,
        search.len() > 0 ==> visible_spec(mrs, search) == mrs.filter(
            |m: MergeRequest| mr_matches_query(m, lowercase(search)),
        ),
        forall|x: MergeRequest| #[trigger]
            visible_spec(mrs, search).contains(x) ==> mrs.contains(x) && (search.len() > 0
                ==> mr_matches_query(x, lowercase(search))),
{
    if search.len() > 0 {
        lemma_matching_is_filter(mrs, lowercase(search));
        assert forall|x: MergeRequest| #[trigger] visible_spec(mrs, search).contains(x) implies mrs.contains(x)
            && mr_matches_query(x, lowercase(search)) by {
            lemma_matching_contains(mrs, lowercase(search), x);
        }
    }
}

/// After a list arrives, the cursor is on one of its rows, or at the top of
/// an empty list.
pub proof fn lemma_cursor_in_list(row: usize, n: nat)
    ensures
        n > 0 ==> clamp_row(row, n) < n,
        n == 0 ==> clamp_row(row, n) == 0,
        row < n ==> clamp_row(row, n) == row,
{
}

fn token_matches_exec(mr: &MergeRequest, t: &str) -> (r: bool)
    ensures
        r == token_matches(*mr, t@),
{
    if contains_str(to_lower(mr.title.as_str()).as_str(), t) {
        return true;
    }
    if contains_str(to_lower(mr.source_branch.as_str()).as_str(), t) {
        return true;
    }
    if contains_str(to_lower(mr.author.username.as_str()).as_str(), t) {
        return true;
    }
    if contains_str(to_lower(mr.author.name.as_str()).as_str(), t) {
        return true;
    }
    if contains_str(decimal_string(mr.iid).as_str(), t) {
        return true;
    }
    if contains_str(to_lower(mr.status_label()).as_str(), t) {
        return true;
    }
    match &mr.milestone {
        Some(m) => {
            if contains_str(to_lower(m.title.as_str()).as_str(), t) {
                return true;
            }
        },
        None => {},
    }
    let mut i: usize = 0;
    while i < mr.labels.len()
        invariant
            i <= mr.labels@.len(),
            forall|k: int| 0 <= k < i ==> !has_infix(lowercase(#[trigger] mr.labels@[k]@), t@),
        decreases mr.labels.len() - i,
    {
        if contains_str(to_lower(mr.labels[i].as_str()).as_str(), t) {
            return true;
        }
        i = i + 1;
    }
    false
}

/// Whether a merge request matches a (lower-case) search query.
pub fn mr_matches(mr: &MergeRequest, q: &str) -> (r: bool)
    ensures
        r == mr_matches_query(*mr, q@),
{
    let words = split_words(q);
    let ghost wv = words@.map_values(|x: String| x@);
    let mut i: usize = 0;
    while i < words.len()
        invariant
            i <= words@.len(),
            wv == words@.map_values(|x: String| x@),
            wv == words_of(q@),
            forall|k: int| 0 <= k < i ==> token_matches(*mr, #[trigger] wv[k]),
        decreases words.len() - i,
    {
        if !token_matches_exec(mr, words[i].as_str()) {
            assert(!token_matches(*mr, wv[i as int]));
            return false;
        }
        i = i + 1;
    }
    true
}

/// The effect of a trigger that needs a client: nothing without one.
pub open spec fn needs_client(connected: bool, c: AppCommand) -> Option<AppCommand> {
    if connected {
        Some(c)
    } else {
        None
    }
}

impl App {
    /// A fresh state for the settings: the list when they are complete, else the settings.
    pub fn new(config: Config, connected: bool, repo_path: String) -> (r: App)
        ensures
            r.view == (if config.gitlab_url@.len() > 0 && config.access_token@.len() > 0 {
                AppView::MrList
            } else {
                AppView::Settings
            }),
            r.mrs@.len() == 0,
            !r.loading,
            r.local_search@.len() == 0,
            !r.local_search_active,
            r.selected_row == 0,
            r.current_mr is None,
            r.current_notes@.len() == 0,
            r.current_diff@.len() == 0,
            !r.diff_loading,
            r.error is None,
            r.status_msg is None,
            !r.show_help,
            r.help_scroll == 0,
            r.current_username is None,
            r.current_user_id is None,
            r.approvals@.len() == 0,
            entries_unique(r),
            r.pipelines@.len() == 0,
            r.checked_out_worktrees@.len() == 0,
            r.config == config,
            r.connected == connected,
            r.repo_path == repo_path,
    {
        let initial_view = if config.is_configured() {
            AppView::MrList
        } else {
            AppView::Settings
        };
        App {
            view: initial_view,
            mrs: Vec::new(),
            loading: false,
            local_search: String::new(),
            local_search_active: false,
            selected_row: 0,
            current_mr: None,
            current_notes: Vec::new(),
            current_diff: Vec::new(),
            diff_loading: false,
            error: None,
            status_msg: None,
            show_help: false,
            help_scroll: 0,
            current_username: None,
            current_user_id: None,
            approvals: Vec::new(),
            pipelines: Vec::new(),
            checked_out_worktrees: Vec::new(),
            config,
            connected,
            repo_path,
        }
    }

    /// The merge requests the list shows, in order.
    pub fn visible_mrs(&self) -> (r: Vec<&MergeRequest>)
        ensures
            r@.map_values(|m: &MergeRequest| *m) == visible_spec(self.mrs@, self.local_search@),
    {
        let mut out: Vec<&MergeRequest> = Vec::new();
        if self.local_search.as_str().is_empty() {
            let mut i: usize = 0;
            while i < self.mrs.len()
                invariant
                    i <= self.mrs@.len(),
                    out@.len() == i,
                    out@.map_values(|m: &MergeRequest| *m) == self.mrs@.take(i as int),
                decreases self.mrs.len() - i,
            {
                let ghost before = out@;
                out.push(&self.mrs[i]);
                assert forall|k: int| 0 <= k < i implies #[trigger] out@[k] == self.mrs@[k] by {
                    assert(before.map_values(|m: &MergeRequest| *m)[k] == self.mrs@.take(i as int)[k]);
                }
                assert(out@.map_values(|m: &MergeRequest| *m) =~= self.mrs@.take(i + 1));
                i = i + 1;
            }
            assert(self.mrs@.take(i as int) =~= self.mrs@);
            return out;
        }
        let q = to_lower(self.local_search.as_str());
        let mut i: usize = 0;
        while i < self.mrs.len()
            invariant
                i <= self.mrs@.len(),
                q@ == lowercase(self.local_search@),
                out@.map_values(|m: &MergeRequest| *m) == matching_mrs(self.mrs@.take(i as int), q@),
            decreases self.mrs.len() - i,
        {
            assert(self.mrs@.take(i + 1).drop_last() =~= self.mrs@.take(i as int));
            if mr_matches(&self.mrs[i], q.as_str()) {
                let ghost before = out@;
                out.push(&self.mrs[i]);
                assert(out@.map_values(|m: &MergeRequest| *m) =~= before.map_values(
                    |m: &MergeRequest| *m,
                ).push(self.mrs@[i as int]));
            }
            i = i + 1;
        }
        assert(self.mrs@.take(i as int) =~= self.mrs@);
        out
    }

    /// The merge request under the cursor.
    pub fn selected_mr(&self) -> (r: Option<&MergeRequest>)
        ensures
            ({
                let v = visible_spec(self.mrs@, self.local_search@);
                match r {
                    Some(m) => self.selected_row < v.len() && *m == v[self.selected_row as int],
                    None => self.selected_row >= v.len(),
                }
            }),
    {
        let visible = self.visible_mrs();
        if self.selected_row < visible.len() {
            let m = visible[self.selected_row];
            assert(visible@.map_values(|m: &MergeRequest| *m)[self.selected_row as int] == *m);
            Some(m)
        } else {
            None
        }
    }

    /// Moves the cursor up one row, if it can.
    pub fn move_up(&mut self)
        ensures
            *final(self) == (App {
                selected_row: if old(self).selected_row > 0 {
                    (old(self).selected_row - 1) as usize
                } else {
                    old(self).selected_row
                },
                ..*old(self)
            }),
    {
        if self.selected_row > 0 {
            self.selected_row = self.selected_row - 1;
        }
    }

    /// Moves the cursor down one row, if a visible row is below it.
    pub fn move_down(&mut self)
        ensures
            ({
                let n = visible_spec(old(self).mrs@, old(self).local_search@).len();
                let max = if n > 0 { n - 1 } else { 0 };
                *final(self) == (App {
                    selected_row: if old(self).selected_row < max {
                        (old(self).selected_row + 1) as usize
                    } else {
                        old(self).selected_row
                    },
                    ..*old(self)
                })
            }),
    {
        let n = self.visible_mrs().len();
        let max = if n > 0 { n - 1 } else { 0 };
        if self.selected_row < max {
            self.selected_row = self.selected_row + 1;
        }
    }

    /// The (project id, iid) of each merge request in the list.
    pub fn mr_keys(&self) -> (r: Vec<(u64, u64)>)
        ensures
            r@ == self.mrs@.map_values(|m: MergeRequest| (m.project_id, m.iid)),
    {
        let mut out: Vec<(u64, u64)> = Vec::new();
        let mut i: usize = 0;
        while i < self.mrs.len()
            invariant
                i <= self.mrs@.len(),
                out@ == self.mrs@.take(i as int).map_values(|m: MergeRequest| (m.project_id, m.iid)),
            decreases self.mrs.len() - i,
        {
            out.push((self.mrs[i].project_id, self.mrs[i].iid));
            assert(out@ =~= self.mrs@.take(i + 1).map_values(|m: MergeRequest| (m.project_id, m.iid)));
            i = i + 1;
        }
        assert(self.mrs@.take(i as int) =~= self.mrs@);
        out
    }

    /// Starts fetching the merge requests: marks the list as loading and clears the error.
    pub fn trigger_load(&mut self) -> (c: Option<AppCommand>)
        ensures
            c == needs_client(old(self).connected, AppCommand::LoadMrs),
            *final(self) == (if old(self).connected {
                App { loading: true, error: None, ..*old(self) }
            } else {
                *old(self)
            }),
    {
        if !self.connected {
            return None;
        }
        self.loading = true;
        self.error = None;
        Some(AppCommand::LoadMrs)
    }

    /// Asks for the comments of a merge request.
    pub fn trigger_load_notes(&self, project_id: u64, iid: u64) -> (c: Option<AppCommand>)
        ensures
            c == needs_client(self.connected, AppCommand::LoadNotes(project_id, iid)),
    {
        if !self.connected {
            None
        } else {
            Some(AppCommand::LoadNotes(project_id, iid))
        }
    }

    /// Starts fetching a diff: marks it as loading and clears the old one.
    pub fn trigger_load_diff(&mut self, project_id: u64, iid: u64) -> (c: Option<AppCommand>)
        ensures
            c == needs_client(old(self).connected, AppCommand::LoadDiff(project_id, iid)),
            old(self).connected ==> final(self).current_diff@.len() == 0 && *final(self) == (App {
                diff_loading: true,
                current_diff: final(self).current_diff,
                ..*old(self)
            }),
            !old(self).connected ==> *final(self) == *old(self),
    {
        if !self.connected {
            return None;
        }
        self.diff_loading = true;
        self.current_diff = Vec::new();
        Some(AppCommand::LoadDiff(project_id, iid))
    }

    /// Asks to merge; without a client, reports that it is not connected.
    pub fn trigger_merge(&mut self, project_id: u64, iid: u64) -> (c: Option<AppCommand>)
        ensures
            c == needs_client(old(self).connected, AppCommand::Merge(project_id, iid)),
            old(self).connected ==> *final(self) == *old(self),
            !old(self).connected ==> (final(self).error matches Some(e) && e@ == "Not connected"@
                && *final(self) == (App { error: final(self).error, ..*old(self) })),
    {
        if !self.connected {
            self.error = Some(owned("Not connected"));
            return None;
        }
        Some(AppCommand::Merge(project_id, iid))
    }

    /// Asks to approve; without a client, reports that it is not connected.
    pub fn trigger_approve(&mut self, project_id: u64, iid: u64) -> (c: Option<AppCommand>)
        ensures
            c == needs_client(old(self).connected, AppCommand::Approve(project_id, iid)),
            old(self).connected ==> *final(self) == *old(self),
            !old(self).connected ==> (final(self).error matches Some(e) && e@ == "Not connected"@
                && *final(self) == (App { error: final(self).error, ..*old(self) })),
    {
        if !self.connected {
            self.error = Some(owned("Not connected"));
            return None;
        }
        Some(AppCommand::Approve(project_id, iid))
    }

    /// Asks for the pipelines of the listed merge requests, if there are any.
    pub fn trigger_load_pipelines(&self) -> (c: Option<AppCommand>)
        ensures
            c == (if self.connected && self.mrs@.len() > 0 {
                Some(AppCommand::LoadPipelines)
            } else {
                None
            }),
    {
        if !self.connected || self.mrs.len() == 0 {
            None
        } else {
            Some(AppCommand::LoadPipelines)
        }
    }

    /// Asks for the approvers of the listed merge requests, if there are any.
    pub fn trigger_load_approvals(&self) -> (c: Option<AppCommand>)
        ensures
            c == (if self.connected && self.mrs@.len() > 0 {
                Some(AppCommand::LoadApprovals)
            } else {
                None
            }),
    {
        if !self.connected || self.mrs.len() == 0 {
            None
        } else {
            Some(AppCommand::LoadApprovals)
        }
    }

    /// Asks for the current user.
    pub fn trigger_load_user(&self) -> (c: Option<AppCommand>)
        ensures
            c == needs_client(self.connected, AppCommand::LoadUser),
    {
        if !self.connected {
            None
        } else {
            Some(AppCommand::LoadUser)
        }
    }

    /// Asks for the repository's worktrees.
    pub fn trigger_check_worktrees(&self) -> (c: AppCommand)
        ensures
            c == AppCommand::CheckWorktrees,
    {
        AppCommand::CheckWorktrees
    }
}

} // verus!

verus! {

/// The cursor row kept within a list of `n` rows.
pub open spec fn clamp_row(row: usize, n: nat) -> usize {
    let max = if n > 0 { (n - 1) as int } else { 0 };
    if row > max {
        max as usize
    } else {
        row
    }
}

/// The state after a refresh of the list is asked for: loading, no error.
pub open spec fn after_load(a: App) -> App {
    if a.connected {
        App { loading: true, error: None, ..a }
    } else {
        a
    }
}

/// The commands of a refresh request.
pub open spec fn load_cmds(a: App) -> Seq<AppCommand> {
    if a.connected {
        seq![AppCommand::LoadMrs]
    } else {
        seq![]
    }
}

/// `Some` message whose text is `s`.
pub open spec fn message_is(m: Option<String>, s: Seq<char>) -> bool {
    m matches Some(x) && x@ == s
}

/// How the state and the commands follow from one event.
pub open spec fn event_effect(a: App, event: AppEvent, b: App, cmds: Seq<AppCommand>) -> bool {
    match event {
        AppEvent::MrsLoaded(Ok(v)) => {
            let a1 = App { loading: false, mrs: v, selected_row: clamp_row(a.selected_row, v@.len()), ..a };
            &&& b == a1
            &&& cmds == (if a.connected && v@.len() > 0 {
                seq![AppCommand::LoadApprovals, AppCommand::LoadPipelines]
            } else {
                seq![]
            })
        },
        AppEvent::MrsLoaded(Err(e)) => b == App { loading: false, error: Some(e), ..a } && cmds
            == Seq::<AppCommand>::empty(),
        AppEvent::NotesLoaded(Ok(n)) => b == App { current_notes: n, ..a } && cmds
            == Seq::<AppCommand>::empty(),
        AppEvent::NotesLoaded(Err(e)) => b == App { error: Some(e), ..a } && cmds
            == Seq::<AppCommand>::empty(),
        AppEvent::DiffLoaded(Ok(d)) => b == App { diff_loading: false, current_diff: d, ..a } && cmds
            == Seq::<AppCommand>::empty(),
        AppEvent::DiffLoaded(Err(e)) => b == App { diff_loading: false, error: Some(e), ..a }
            && cmds == Seq::<AppCommand>::empty(),
        AppEvent::MergeDone(Ok(_)) => {
            &&& message_is(b.status_msg, "Merged successfully!"@)
            &&& b == after_load(App { status_msg: b.status_msg, ..a })
            &&& cmds == load_cmds(a)
        },
        AppEvent::MergeDone(Err(e)) => {
            &&& message_is(b.error, "Merge failed: "@ + e@)
            &&& b == App { error: b.error, ..a }
            &&& cmds == Seq::<AppCommand>::empty()
        },
        AppEvent::ApproveDone(Ok(_)) => {
            &&& message_is(b.status_msg, "Approved!"@)
            &&& b == after_load(App { status_msg: b.status_msg, ..a })
            &&& cmds == load_cmds(a)
        },
        AppEvent::ApproveDone(Err(e)) => {
            &&& message_is(b.error, "Approve failed: "@ + e@)
            &&& b == App { error: b.error, ..a }
            &&& cmds == Seq::<AppCommand>::empty()
        },
        AppEvent::ApprovalsLoaded(x) => {
            &&& b == App { approvals: b.approvals, ..a }
            &&& keys_unique(b.approvals@)
            &&& forall|k: (u64, u64)| #[trigger] entry_for(b.approvals@, k) == last_entry_for(x@, k)
            &&& cmds == Seq::<AppCommand>::empty()
        },
        AppEvent::PipelinesLoaded(x) => {
            &&& b == App { pipelines: b.pipelines, ..a }
            &&& keys_unique(b.pipelines@)
            &&& forall|k: (u64, u64)| #[trigger] entry_for(b.pipelines@, k) == last_present_for(x@, k)
            &&& cmds == Seq::<AppCommand>::empty()
        },
        AppEvent::WorktreeCreated(Ok(m)) => b == App { status_msg: Some(m), ..a } && cmds
            == seq![AppCommand::CheckWorktrees],
        AppEvent::WorktreeCreated(Err(e)) => {
            &&& message_is(b.error, "Checkout failed: "@ + e@)
            &&& b == App { error: b.error, ..a }
            &&& cmds == Seq::<AppCommand>::empty()
        },
        AppEvent::WorktreesLoaded(w) => b == App { checked_out_worktrees: w, ..a } && cmds
            == Seq::<AppCommand>::empty(),
        AppEvent::UserLoaded(Ok(u)) => b == App {
            current_user_id: Some(u.id),
            current_username: Some(u.username),
            ..a
        } && cmds == Seq::<AppCommand>::empty(),
        AppEvent::UserLoaded(Err(_)) => b == a && cmds == Seq::<AppCommand>::empty(),
        AppEvent::ConfigSaved(c) => b == App { config: c, view: AppView::MrList, ..a } && cmds
            == seq![AppCommand::Connect],
        AppEvent::GitSuspendRequest => b == a && cmds == Seq::<AppCommand>::empty(),
        AppEvent::GitResumed => b == a && cmds == Seq::<AppCommand>::empty(),
    }
}

/// At most one set of approvers and one pipeline is kept per merge request.
pub open spec fn entries_unique(a: App) -> bool {
    keys_unique(a.approvals@) && keys_unique(a.pipelines@)
}

/// Every event keeps at most one set of approvers and one pipeline per
/// merge request.
pub proof fn lemma_events_keep_entries_unique(a: App, event: AppEvent, b: App, cmds: Seq<AppCommand>)
    requires
        entries_unique(a),
        event_effect(a, event, b, cmds),
    ensures
        entries_unique(b),
{
}

/// What a loaded result leaves in the state: a loaded list, diff or set of
/// comments is what the state then holds (and the list or diff is no longer
/// loading); a failed load keeps what was there and shows the error.
pub proof fn lemma_loaded_results_are_kept(a: App, event: AppEvent, b: App, cmds: Seq<AppCommand>)
    requires
        event_effect(a, event, b, cmds),
    ensures
        event matches AppEvent::MrsLoaded(Ok(v)) ==> b.mrs == v && !b.loading,
        event matches AppEvent::MrsLoaded(Err(e)) ==> b.mrs == a.mrs && !b.loading && b.error == Some(e),
        event matches AppEvent::DiffLoaded(Ok(d)) ==> b.current_diff == d && !b.diff_loading,
        event matches AppEvent::DiffLoaded(Err(e)) ==> b.current_diff == a.current_diff && !b.diff_loading
            && b.error == Some(e),
        event matches AppEvent::NotesLoaded(Ok(n)) ==> b.current_notes == n,
        event matches AppEvent::NotesLoaded(Err(e)) ==> b.current_notes == a.current_notes && b.error == Some(e),
{
}

/// `prefix` followed by `s`.
fn prefixed(prefix: &str, s: &str) -> (r: String)
    ensures
        r@ == prefix@ + s@,
{
    let mut r = owned(prefix);
    crate::text::push_str(&mut r, s);
    r
}

impl App {
    /// Takes in a result of background work.
    pub fn handle_event(&mut self, event: AppEvent) -> (cmds: Vec<AppCommand>)
        ensures
            event_effect(*old(self), event, *final(self), cmds@),
    {
        let mut cmds: Vec<AppCommand> = Vec::new();
        match event {
            AppEvent::MrsLoaded(result) => {
                self.loading = false;
                match result {
                    Ok(mrs) => {
                        self.mrs = mrs;
                        let n = self.mrs.len();
                        let max = if n > 0 { n - 1 } else { 0 };
                        if self.selected_row > max {
                            self.selected_row = max;
                        }
                        if let Some(c) = self.trigger_load_approvals() {
                            cmds.push(c);
                        }
                        if let Some(c) = self.trigger_load_pipelines() {
                            cmds.push(c);
                        }
                        proof {
                            if old(self).connected && self.mrs@.len() > 0 {
                                assert(cmds@ =~= seq![AppCommand::LoadApprovals, AppCommand::LoadPipelines]);
                            } else {
                                assert(cmds@ =~= Seq::<AppCommand>::empty());
                            }
                        }
                    },
                    Err(e) => {
                        self.error = Some(e);
                    },
                }
            },
            AppEvent::NotesLoaded(result) => match result {
                Ok(notes) => {
                    self.current_notes = notes;
                },
                Err(e) => {
                    self.error = Some(e);
                },
            },
            AppEvent::DiffLoaded(result) => {
                self.diff_loading = false;
                match result {
                    Ok(diff) => {
                        self.current_diff = diff;
                    },
                    Err(e) => {
                        self.error = Some(e);
                    },
                }
            },
            AppEvent::MergeDone(result) => match result {
                Ok(()) => {
                    self.status_msg = Some(owned("Merged successfully!"));
                    if let Some(c) = self.trigger_load() {
                        cmds.push(c);
                    }
                    assert(cmds@ =~= load_cmds(*old(self)));
                },
                Err(e) => {
                    self.error = Some(prefixed("Merge failed: ", e.as_str()));
                },
            },
            AppEvent::ApproveDone(result) => match result {
                Ok(()) => {
                    self.status_msg = Some(owned("Approved!"));
                    if let Some(c) = self.trigger_load() {
                        cmds.push(c);
                    }
                    assert(cmds@ =~= load_cmds(*old(self)));
                },
                Err(e) => {
                    self.error = Some(prefixed("Approve failed: ", e.as_str()));
                },
            },
            AppEvent::ApprovalsLoaded(approvals) => {
                self.approvals = collect_approvals(approvals);
            },
            AppEvent::PipelinesLoaded(pipelines) => {
                self.pipelines = collect_pipelines(pipelines);
            },
            AppEvent::WorktreeCreated(result) => match result {
                Ok(msg) => {
                    self.status_msg = Some(msg);
                    cmds.push(self.trigger_check_worktrees());
                    assert(cmds@ =~= seq![AppCommand::CheckWorktrees]);
                },
                Err(e) => {
                    self.error = Some(prefixed("Checkout failed: ", e.as_str()));
                },
            },
            AppEvent::WorktreesLoaded(worktrees) => {
                self.checked_out_worktrees = worktrees;
            },
            AppEvent::UserLoaded(result) => {
                if let Ok(user) = result {
                    self.current_user_id = Some(user.id);
                    self.current_username = Some(user.username);
                }
            },
            AppEvent::GitSuspendRequest => {},
            AppEvent::GitResumed => {},
            AppEvent::ConfigSaved(config) => {
                self.config = config;
                self.view = AppView::MrList;
                cmds.push(AppCommand::Connect);
                assert(cmds@ =~= seq![AppCommand::Connect]);
            },
        }
        cmds
    }

    /// Takes in whether the new client connected; with one, the list is
    /// refreshed and the user fetched.
    pub fn connection_result(&mut self, ok: bool) -> (cmds: Vec<AppCommand>)
        ensures
            *final(self) == after_load(App { connected: ok, ..*old(self) }),
            cmds@ == (if ok {
                seq![AppCommand::LoadMrs, AppCommand::LoadUser]
            } else {
                Seq::<AppCommand>::empty()
            }),
    {
        self.connected = ok;
        let mut cmds: Vec<AppCommand> = Vec::new();
        if let Some(c) = self.trigger_load() {
            cmds.push(c);
        }
        if let Some(c) = self.trigger_load_user() {
            cmds.push(c);
        }
        proof {
            if ok {
                assert(cmds@ =~= seq![AppCommand::LoadMrs, AppCommand::LoadUser]);
            } else {
                assert(cmds@ =~= Seq::<AppCommand>::empty());
            }
        }
        cmds
    }
}

} // verus!
