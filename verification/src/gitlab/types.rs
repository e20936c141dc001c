//! GitLab API records and what the views read off them.
use vstd::prelude::*;

use crate::text::{
    byte_len, chars_of, has_prefix, lemma_byte_len_take_grows, lines, lines_of, prefix_of_bytes, starts_with, str_eq,
    string_of_range,
};

verus! {

/// A GitLab user.
#[derive(Clone, Debug)]
pub struct User {
    pub username: String,
    pub name: String,
}

/// The user the access token belongs to.
#[derive(Clone, Debug)]
pub struct CurrentUser {
    pub id: u64,
    pub username: String,
}

/// A merge request's references, e.g. `group/project!42`.
#[derive(Clone, Debug)]
pub struct References {
    pub full: String,
}

/// A milestone.
#[derive(Clone, Debug)]
pub struct Milestone {
    pub title: String,
}

/// A CI pipeline.
#[derive(Clone, Debug)]
pub struct Pipeline {
    pub status: String,
}

/// The icon for a pipeline status.
pub open spec fn pipeline_icon(status: Seq<char>) -> Seq<char> {
    if status == "success"@ {
        "✓"@
    } else if status == "failed"@ {
        "✗"@
    } else if status == "running"@ || status == "pending"@ {
        "◌"@
    } else {
        "○"@
    }
}

/// The colour name for a pipeline status.
pub open spec fn pipeline_color(status: Seq<char>) -> Seq<char> {
    if status == "success"@ {
        "green"@
    } else if status == "failed"@ {
        "red"@
    } else if status == "running"@ || status == "pending"@ {
        "yellow"@
    } else {
        "dark_gray"@
    }
}

impl Pipeline {
    /// A one-character icon for the status.
    pub fn icon(&self) -> (r: &'static str)
        ensures
            r@ == pipeline_icon(self.status@),
    {
        let s = self.status.as_str();
        if str_eq(s, "success") {
            "✓"
        } else if str_eq(s, "failed") {
            "✗"
        } else if str_eq(s, "running") || str_eq(s, "pending") {
            "◌"
        } else {
            "○"
        }
    }

    /// The name of the colour that shows the status.
    pub fn color_name(&self) -> (r: &'static str)
        ensures
            r@ == pipeline_color(self.status@),
    {
        let s = self.status.as_str();
        if str_eq(s, "success") {
            "green"
        } else if str_eq(s, "failed") {
            "red"
        } else if str_eq(s, "running") || str_eq(s, "pending") {
            "yellow"
        } else {
            "dark_gray"
        }
    }

    /// A copy of this pipeline.
    pub fn duplicate(&self) -> (r: Pipeline)
        ensures
            r == *self,
    {
        Pipeline { status: self.status.clone() }
    }
}

impl User {
    /// A copy of this user.
    pub fn duplicate(&self) -> (r: User)
        ensures
            r == *self,
    {
        User { username: self.username.clone(), name: self.name.clone() }
    }
}

/// A copy of each user, in order.
pub fn duplicate_users(users: &Vec<User>) -> (r: Vec<User>)
    ensures
        r@ == users@,
{
    let mut out: Vec<User> = Vec::new();
    let mut i: usize = 0;
    while i < users.len()
        invariant
            i <= users@.len(),
            out@ == users@.take(i as int),
        decreases users.len() - i,
    {
        out.push(users[i].duplicate());
        assert(out@ =~= users@.take(i + 1));
        i = i + 1;
    }
    assert(users@.take(i as int) =~= users@);
    out
}

/// A copy of an optional pipeline.
pub fn duplicate_pipeline(p: &Option<Pipeline>) -> (r: Option<Pipeline>)
    ensures
        r == *p,
{
    match p {
        Some(x) => Some(x.duplicate()),
        None => None,
    }
}

/// A merge request.
#[derive(Clone, Debug)]
pub struct MergeRequest {
    pub iid: u64,
    pub project_id: u64,
    pub references: References,
    pub title: String,
    pub description: Option<String>,
    pub state: String,
    pub source_branch: String,
    pub target_branch: String,
    pub author: User,
    pub reviewers: Vec<User>,
    pub detailed_merge_status: String,
    pub draft: bool,
    pub web_url: String,
    pub updated_at: String,
    pub labels: Vec<String>,
    pub milestone: Option<Milestone>,
    /// Returned by the list endpoint.
    pub pipeline: Option<Pipeline>,
    /// Returned only by the single-MR endpoint.
    pub head_pipeline: Option<Pipeline>,
}

/// The label shown for a merge request's status: `Draft` for a draft, else a
/// name for its detailed merge status.
pub open spec fn status_label_of(draft: bool, status: Seq<char>) -> Seq<char> {
    if draft {
        "Draft"@
    } else if status == "mergeable"@ {
        "Mergeable"@
    } else if status == "not_approved"@ {
        "Needs Approval"@
    } else if status == "checking"@ {
        "Checking"@
    } else if status == "blocked_status"@ {
        "Blocked"@
    } else if status == "discussions_not_resolved"@ {
        "Open Discussions"@
    } else if status == "merge_request_blocked"@ {
        "MR Blocked"@
    } else if status == "ci_must_pass"@ {
        "CI Required"@
    } else if status == "ci_still_running"@ {
        "CI Running"@
    } else {
        "Open"@
    }
}

/// The first ten bytes of a timestamp (its date), or all of it where ten
/// bytes do not end on a character boundary.
pub open spec fn date_part(s: Seq<char>) -> Seq<char> {
    if exists|k: int| 0 <= k <= s.len() && byte_len(#[trigger] s.take(k)) == 10 {
        s.take(choose|k: int| 0 <= k <= s.len() && byte_len(#[trigger] s.take(k)) == 10)
    } else {
        s
    }
}

/// Two merge requests with the same contents (their lists compared by contents).
pub open spec fn same_mr(a: MergeRequest, b: MergeRequest) -> bool {
    &&& a == MergeRequest { reviewers: a.reviewers, labels: a.labels, ..b }
    &&& a.reviewers@ == b.reviewers@
    &&& a.labels@ == b.labels@
}

impl MergeRequest {
    /// A copy of this merge request.
    pub fn duplicate(&self) -> (r: MergeRequest)
        ensures
            same_mr(r, *self),
    {
        let labels = self.labels.clone();
        assert(labels@ =~= self.labels@);
        MergeRequest {
            iid: self.iid,
            project_id: self.project_id,
            references: References { full: self.references.full.clone() },
            title: self.title.clone(),
            description: match &self.description {
                Some(d) => Some(d.clone()),
                None => None,
            },
            state: self.state.clone(),
            source_branch: self.source_branch.clone(),
            target_branch: self.target_branch.clone(),
            author: self.author.duplicate(),
            reviewers: duplicate_users(&self.reviewers),
            detailed_merge_status: self.detailed_merge_status.clone(),
            draft: self.draft,
            web_url: self.web_url.clone(),
            updated_at: self.updated_at.clone(),
            labels,
            milestone: match &self.milestone {
                Some(m) => Some(Milestone { title: m.title.clone() }),
                None => None,
            },
            pipeline: duplicate_pipeline(&self.pipeline),
            head_pipeline: duplicate_pipeline(&self.head_pipeline),
        }
    }

    pub open spec fn spec_status_label(&self) -> Seq<char> {
        status_label_of(self.draft, self.detailed_merge_status@)
    }

    /// The status shown for the merge request.
    pub fn status_label(&self) -> (r: &'static str)
        ensures
            r@ == self.spec_status_label(),
    {
        if self.draft {
            return "Draft";
        }
        let s = self.detailed_merge_status.as_str();
        if str_eq(s, "mergeable") {
            "Mergeable"
        } else if str_eq(s, "not_approved") {
            "Needs Approval"
        } else if str_eq(s, "checking") {
            "Checking"
        } else if str_eq(s, "blocked_status") {
            "Blocked"
        } else if str_eq(s, "discussions_not_resolved") {
            "Open Discussions"
        } else if str_eq(s, "merge_request_blocked") {
            "MR Blocked"
        } else if str_eq(s, "ci_must_pass") {
            "CI Required"
        } else if str_eq(s, "ci_still_running") {
            "CI Running"
        } else {
            "Open"
        }
    }

    /// Whether GitLab reports the merge request as mergeable.
    pub fn is_mergeable(&self) -> (r: bool)
        ensures
            r == (self.detailed_merge_status@ == "mergeable"@),
    {
        str_eq(self.detailed_merge_status.as_str(), "mergeable")
    }

    /// The best pipeline known: the head pipeline (single-MR endpoint), else the
    /// list endpoint's pipeline.
    pub fn any_pipeline(&self) -> (r: Option<&Pipeline>)
        ensures
            r == (if self.head_pipeline is Some {
                Some(&self.head_pipeline->0)
            } else if self.pipeline is Some {
                Some(&self.pipeline->0)
            } else {
                None
            }),
    {
        match &self.head_pipeline {
            Some(p) => Some(p),
            None => match &self.pipeline {
                Some(p) => Some(p),
                None => None,
            },
        }
    }

    /// The date part of the update time: its first ten bytes.
    pub fn formatted_updated(&self) -> (r: String)
        ensures
            r@ == date_part(self.updated_at@),
    {
        date_text(self.updated_at.as_str())
    }
}

/// The date part of a timestamp: its first ten bytes, or all of it where
/// ten bytes do not end on a character boundary.
pub fn date_text(s: &str) -> (r: String)
    ensures
        r@ == date_part(s@),
{
    let v = chars_of(s);
    match prefix_of_bytes(&v, 10) {
        Some(k) => {
            let r = string_of_range(&v, 0, k);
            assert(v@.subrange(0, k as int) =~= v@.take(k as int));
            proof {
                let c = choose|c: int| 0 <= c <= v@.len() && byte_len(#[trigger] v@.take(c)) == 10;
                if c < k {
                    lemma_byte_len_take_grows(v@, c, k as int);
                } else if c > k {
                    lemma_byte_len_take_grows(v@, k as int, c);
                }
            }
            r
        },
        None => {
            let r = string_of_range(&v, 0, v.len());
            assert(v@.subrange(0, v@.len() as int) =~= v@);
            r
        },
    }
}

/// A comment on a merge request.
#[derive(Clone, Debug)]
pub struct Note {
    pub body: String,
    pub author: User,
    pub created_at: String,
    pub system: bool,
}

/// The changes of one file in a merge request.
#[derive(Clone, Debug)]
pub struct FileDiff {
    pub old_path: String,
    pub new_path: String,
    pub diff: String,
    pub new_file: bool,
    pub deleted_file: bool,
    pub renamed_file: bool,
}

/// The body of the changes endpoint.
#[derive(Clone, Debug)]
pub struct ChangesResponse {
    pub changes: Vec<FileDiff>,
}

/// An added line: it starts with `+` but not with `+++`.
pub open spec fn is_added_line(l: Seq<char>) -> bool {
    has_prefix(l, "+"@) && !has_prefix(l, "+++"@)
}

/// A removed line: not an added one, starts with `-` but not with `---`.
pub open spec fn is_removed_line(l: Seq<char>) -> bool {
    !is_added_line(l) && has_prefix(l, "-"@) && !has_prefix(l, "---"@)
}

/// The number of added and removed lines among `ls`.
pub open spec fn count_changes(ls: Seq<Seq<char>>) -> (nat, nat)
    decreases ls.len(),
{
    if ls.len() == 0 {
        (0, 0)
    } else {
        let (a, d) = count_changes(ls.drop_last());
        if is_added_line(ls.last()) {
            (a + 1, d)
        } else if is_removed_line(ls.last()) {
            (a, d + 1)
        } else {
            (a, d)
        }
    }
}

/// The number of added and removed lines over all files.
pub open spec fn diff_changes(files: Seq<FileDiff>) -> (nat, nat)
    decreases files.len(),
{
    if files.len() == 0 {
        (0, 0)
    } else {
        let (a, d) = diff_changes(files.drop_last());
        let (fa, fd) = count_changes(lines_of(files.last().diff@));
        (a + fa, d + fd)
    }
}

/// The number of lines over all files.
pub open spec fn diff_line_total(files: Seq<FileDiff>) -> nat
    decreases files.len(),
{
    if files.len() == 0 {
        0
    } else {
        diff_line_total(files.drop_last()) + lines_of(files.last().diff@).len()
    }
}

proof fn lemma_count_changes_bound(ls: Seq<Seq<char>>)
    ensures
        count_changes(ls).0 + count_changes(ls).1 <= ls.len(),
    decreases ls.len(),
{
    if ls.len() > 0 {
        lemma_count_changes_bound(ls.drop_last());
    }
}

proof fn lemma_diff_changes_bound(files: Seq<FileDiff>)
    ensures
        diff_changes(files).0 + diff_changes(files).1 <= diff_line_total(files),
    decreases files.len(),
{
    if files.len() > 0 {
        lemma_diff_changes_bound(files.drop_last());
        lemma_count_changes_bound(lines_of(files.last().diff@));
    }
}

proof fn lemma_diff_total_monotone(files: Seq<FileDiff>, i: int)
    requires
        0 <= i <= files.len(),
    ensures
        diff_line_total(files.take(i)) <= diff_line_total(files),
    decreases files.len() - i,
{
    if i < files.len() {
        lemma_diff_total_monotone(files, i + 1);
        assert(files.take(i + 1).drop_last() =~= files.take(i));
    } else {
        assert(files.take(i) =~= files);
    }
}

/// Counts the added and removed lines of a merge request's diff.
pub fn diff_stats(diffs: &[FileDiff]) -> (r: (usize, usize))
    requires
        diff_line_total(diffs@) <= usize::MAX,
    ensures
        r.0 == diff_changes(diffs@).0,
        r.1 == diff_changes(diffs@).1,
{
    let mut additions: usize = 0;
    let mut deletions: usize = 0;
    let mut i: usize = 0;
    while i < diffs.len()
        invariant
            i <= diffs@.len(),
            diff_line_total(diffs@) <= usize::MAX,
            (additions as nat, deletions as nat) == diff_changes(diffs@.take(i as int)),
        decreases diffs.len() - i,
    {
        proof {
            assert(diffs@.take(i + 1).drop_last() =~= diffs@.take(i as int));
            lemma_diff_total_monotone(diffs@, i + 1);
            lemma_diff_changes_bound(diffs@.take(i + 1));
        }
        let ls = lines(diffs[i].diff.as_str());
        let ghost lv = ls@.map_values(|x: String| x@);
        let ghost base = (additions as nat, deletions as nat);
        let mut j: usize = 0;
        while j < ls.len()
            invariant
                j <= ls@.len(),
                lv == ls@.map_values(|x: String| x@),
                lv == lines_of(diffs@[i as int].diff@),
                diff_changes(diffs@.take(i + 1)).0 + diff_changes(diffs@.take(i + 1)).1 <= usize::MAX,
                diff_changes(diffs@.take(i + 1)) == (base.0 + count_changes(lv).0, base.1 + count_changes(lv).1),
                (additions as nat, deletions as nat) == (base.0 + count_changes(lv.take(j as int)).0, base.1 + count_changes(lv.take(j as int)).1),
            decreases ls.len() - j,
        {
            proof {
                assert(lv.take(j + 1).drop_last() =~= lv.take(j as int));
                lemma_count_prefix_monotone(lv, j + 1);
            }
            let line = ls[j].as_str();
            if starts_with(line, "+") && !starts_with(line, "+++") {
                additions = additions + 1;
            } else if starts_with(line, "-") && !starts_with(line, "---") {
                deletions = deletions + 1;
            }
            j = j + 1;
        }
        assert(lv.take(j as int) =~= lv);
        i = i + 1;
    }
    assert(diffs@.take(i as int) =~= diffs@);
    (additions, deletions)
}

proof fn lemma_count_prefix_monotone(ls: Seq<Seq<char>>, j: int)
    requires
        0 <= j <= ls.len(),
    ensures
        count_changes(ls.take(j)).0 <= count_changes(ls).0,
        count_changes(ls.take(j)).1 <= count_changes(ls).1,
    decreases ls.len() - j,
{
    if j < ls.len() {
        lemma_count_prefix_monotone(ls, j + 1);
        assert(ls.take(j + 1).drop_last() =~= ls.take(j));
    } else {
        assert(ls.take(j) =~= ls);
    }
}

} // verus!
