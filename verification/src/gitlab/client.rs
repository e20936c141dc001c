//! What the GitLab client decides: the URLs it asks for and how it merges the
//! answers. The HTTP requests themselves are made by the application.
use vstd::prelude::*;

use crate::gitlab::types::MergeRequest;
use crate::text::{chars_of, decimal, push_decimal, push_str, replace_char, replace_char_with, trim_end_char, trim_end_matching};

verus! {

/// The query that lists open merge requests, most recently updated first.
pub open spec fn open_mrs_query() -> Seq<char> {
    "merge_requests?state=opened&per_page=100&order_by=updated_at&sort=desc"@
}

/// A byte a header value may hold: a visible ASCII character or any byte
/// from 128 up (not DEL, no other control character), or a tab.
pub open spec fn header_byte_ok(b: u8) -> bool {
    (b >= 32 && b != 127) || b == 9
}

/// Whether a text can be sent as a header value: each byte of its UTF-8
/// encoding is one a header value may hold.
pub open spec fn header_text_ok(text: Seq<char>) -> bool {
    forall|i: int|
        0 <= i < vstd::utf8::encode_utf8(text).len() ==> header_byte_ok(
            #[trigger] vstd::utf8::encode_utf8(text)[i],
        )
}

/// `reqwest::header::HeaderValue::from_str` (the `http` crate's type): it
/// accepts the text exactly when every byte of it is one a header value may
/// hold (`is_valid` in the crate's source). Only whether it accepts is kept.
#[verifier::external_body]
fn header_value_accepts(text: &str) -> (r: bool)
    ensures
        r == header_text_ok(text@),
{
    reqwest::header::HeaderValue::from_str(text).is_ok()
}

/// What the client keeps to make its requests: the server address, the
/// access token sent with each request, and the projects to list (none
/// for the global list).
pub struct GitLabClient {
    pub base_url: String,
    pub token: String,
    /// Bare project paths, e.g. `group/sub/project`.
    pub projects: Vec<String>,
}

/// How to list the open merge requests.
pub enum ListRequest {
    /// Ask the global list at this URL (then, on 403, the member projects).
    Global(String),
    /// Ask each project (its path and the URL) and merge the answers.
    Projects(Vec<(String, String)>),
}

impl GitLabClient {
    /// A client for the server at `gitlab_url`; refused when the token
    /// cannot be sent as a header value.
    pub fn new(gitlab_url: &str, access_token: &str, projects: Vec<String>) -> (r: Result<GitLabClient, String>)
        ensures
            r is Ok <==> header_text_ok(access_token@),
            r matches Err(e) ==> e@ == "Invalid access token"@,
            r matches Ok(c) ==> c.base_url@ == trim_end_char(gitlab_url@, '/') && c.token@ == access_token@
                && c.projects@ == projects@,
    {
        if !header_value_accepts(access_token) {
            let mut e = String::new();
            push_str(&mut e, "Invalid access token");
            return Err(e);
        }
        let mut token = String::new();
        push_str(&mut token, access_token);
        Ok(GitLabClient { base_url: base_url(gitlab_url), token, projects })
    }

    /// The list request for each project path, in order: the path (for
    /// messages) and the URL of its open merge requests.
    pub fn project_requests(&self, paths: &Vec<String>) -> (r: Vec<(String, String)>)
        ensures
            r@.len() == paths@.len(),
            forall|i: int|
                0 <= i < paths@.len() ==> (#[trigger] r@[i]).0@ == paths@[i]@ && r@[i].1@ == self.base_url@
                    + "/api/v4/projects/"@ + replace_char(paths@[i]@, '/', "%2F"@) + "/"@ + open_mrs_query(),
    {
        let mut out: Vec<(String, String)> = Vec::new();
        let mut i: usize = 0;
        while i < paths.len()
            invariant
                i <= paths@.len(),
                out@.len() == i,
                forall|k: int|
                    0 <= k < i ==> (#[trigger] out@[k]).0@ == paths@[k]@ && out@[k].1@ == self.base_url@
                        + "/api/v4/projects/"@ + replace_char(paths@[k]@, '/', "%2F"@) + "/"@
                        + open_mrs_query(),
            decreases paths.len() - i,
        {
            let url = project_mrs_url(self.base_url.as_str(), paths[i].as_str());
            out.push((paths[i].clone(), url));
            i = i + 1;
        }
        out
    }

    /// How the open merge requests are listed: per configured project, or,
    /// with none configured, with the global list.
    pub fn list_request(&self) -> (r: ListRequest)
        ensures
            self.projects@.len() == 0 ==> (r matches ListRequest::Global(u) && u@ == self.base_url@
                + "/api/v4/"@ + open_mrs_query()),
            self.projects@.len() > 0 ==> (r matches ListRequest::Projects(v) && v@.len()
                == self.projects@.len() && forall|i: int|
                0 <= i < self.projects@.len() ==> (#[trigger] v@[i]).0@ == self.projects@[i]@ && v@[i].1@
                    == self.base_url@ + "/api/v4/projects/"@ + replace_char(self.projects@[i]@, '/', "%2F"@)
                    + "/"@ + open_mrs_query()),
    {
        if self.projects.len() > 0 {
            ListRequest::Projects(self.project_requests(&self.projects))
        } else {
            ListRequest::Global(global_mrs_url(self.base_url.as_str()))
        }
    }

    /// The URL of `path` under a project.
    pub fn project_url(&self, project_id: u64, path: &str) -> (r: String)
        ensures
            r@ == self.base_url@ + "/api/v4/projects/"@ + decimal(project_id as nat) + "/"@ + path@,
    {
        project_url(self.base_url.as_str(), project_id, path)
    }
}

/// The server address the client keeps: the GitLab URL without trailing slashes.
pub fn base_url(gitlab_url: &str) -> (r: String)
    ensures
        r@ == trim_end_char(gitlab_url@, '/'),
{
    trim_end_matching(gitlab_url, '/')
}

/// The URL of `path` under a project: `{base}/api/v4/projects/{id}/{path}`.
pub fn project_url(base: &str, project_id: u64, path: &str) -> (r: String)
    ensures
        r@ == base@ + "/api/v4/projects/"@ + decimal(project_id as nat) + "/"@ + path@,
{
    let mut r = String::new();
    push_str(&mut r, base);
    push_str(&mut r, "/api/v4/projects/");
    push_decimal(&mut r, project_id);
    push_str(&mut r, "/");
    push_str(&mut r, path);
    r
}

/// The global list of open merge requests the token can see.
pub fn global_mrs_url(base: &str) -> (r: String)
    ensures
        r@ == base@ + "/api/v4/"@ + open_mrs_query(),
{
    let mut r = String::new();
    push_str(&mut r, base);
    push_str(&mut r, "/api/v4/");
    push_str(&mut r, "merge_requests?state=opened&per_page=100&order_by=updated_at&sort=desc");
    r
}

/// The open merge requests of one project, its path URL-encoded (`/` as `%2F`).
pub fn project_mrs_url(base: &str, project_path: &str) -> (r: String)
    ensures
        r@ == base@ + "/api/v4/projects/"@ + replace_char(project_path@, '/', "%2F"@) + "/"@
            + open_mrs_query(),
{
    let encoded = replace_char_with(project_path, '/', "%2F");
    let mut r = String::new();
    push_str(&mut r, base);
    push_str(&mut r, "/api/v4/projects/");
    push_str(&mut r, encoded.as_str());
    push_str(&mut r, "/");
    push_str(&mut r, "merge_requests?state=opened&per_page=100&order_by=updated_at&sort=desc");
    r
}

/// The projects the token's user is a member of that have merge requests enabled.
pub fn membership_projects_url(base: &str) -> (r: String)
    ensures
        r@ == base@
            + "/api/v4/projects?membership=true&with_merge_requests_enabled=true&per_page=100&archived=false"@,
{
    let mut r = String::new();
    push_str(&mut r, base);
    push_str(
        &mut r,
        "/api/v4/projects?membership=true&with_merge_requests_enabled=true&per_page=100&archived=false",
    );
    r
}

/// The path, under a project, of a merge request's changes.
pub fn changes_path(iid: u64) -> (r: String)
    ensures
        r@ == "merge_requests/"@ + decimal(iid as nat) + "/changes"@,
{
    let mut r = String::new();
    push_str(&mut r, "merge_requests/");
    push_decimal(&mut r, iid);
    push_str(&mut r, "/changes");
    r
}

/// The path, under a project, that merges a merge request.
pub fn merge_path(iid: u64) -> (r: String)
    ensures
        r@ == "merge_requests/"@ + decimal(iid as nat) + "/merge"@,
{
    let mut r = String::new();
    push_str(&mut r, "merge_requests/");
    push_decimal(&mut r, iid);
    push_str(&mut r, "/merge");
    r
}

/// The path, under a project, that approves a merge request.
pub fn approve_path(iid: u64) -> (r: String)
    ensures
        r@ == "merge_requests/"@ + decimal(iid as nat) + "/approve"@,
{
    let mut r = String::new();
    push_str(&mut r, "merge_requests/");
    push_decimal(&mut r, iid);
    push_str(&mut r, "/approve");
    r
}

/// The path, under a project, of a merge request's approvals.
pub fn approvals_path(iid: u64) -> (r: String)
    ensures
        r@ == "merge_requests/"@ + decimal(iid as nat) + "/approvals"@,
{
    let mut r = String::new();
    push_str(&mut r, "merge_requests/");
    push_decimal(&mut r, iid);
    push_str(&mut r, "/approvals");
    r
}

/// The path, under a project, of a merge request's pipelines, newest first.
pub fn pipelines_path(iid: u64) -> (r: String)
    ensures
        r@ == "merge_requests/"@ + decimal(iid as nat) + "/pipelines"@,
{
    let mut r = String::new();
    push_str(&mut r, "merge_requests/");
    push_decimal(&mut r, iid);
    push_str(&mut r, "/pipelines");
    r
}

/// The path, under a project, of a merge request's comments (notes),
/// oldest first.
pub fn notes_path(iid: u64) -> (r: String)
    ensures
        r@ == "merge_requests/"@ + decimal(iid as nat) + "/notes?sort=asc&order_by=created_at&per_page=100"@,
{
    let mut r = String::new();
    push_str(&mut r, "merge_requests/");
    push_decimal(&mut r, iid);
    push_str(&mut r, "/notes?sort=asc&order_by=created_at&per_page=100");
    r
}

/// The user the token belongs to.
pub fn current_user_url(base: &str) -> (r: String)
    ensures
        r@ == base@ + "/api/v4/user"@,
{
    let mut r = String::new();
    push_str(&mut r, base);
    push_str(&mut r, "/api/v4/user");
    r
}

/// What to do with the answer to the global list request.
#[derive(Clone, Copy, Debug, PartialEq, Eq, Structural)]
pub enum GlobalListStep {
    /// A success status: read the merge requests from the body.
    ReadBody,
    /// 403, a restricted token: list the member projects and ask each of them.
    ViaMembership,
    /// Any other status: report an API error.
    ApiError,
}

/// The step after the global list request answered with `status`.
pub fn global_list_step(status: u16) -> (r: GlobalListStep)
    ensures
        200 <= status <= 299 ==> r == GlobalListStep::ReadBody,
        status == 403 ==> r == GlobalListStep::ViaMembership,
        !(200 <= status <= 299) && status != 403 ==> r == GlobalListStep::ApiError,
{
    if 200 <= status && status <= 299 {
        GlobalListStep::ReadBody
    } else if status == 403 {
        GlobalListStep::ViaMembership
    } else {
        GlobalListStep::ApiError
    }
}

/// The project paths (`path_with_namespace`) that are present, in order.
pub open spec fn present_paths(values: Seq<Option<String>>) -> Seq<Seq<char>>
    decreases values.len(),
{
    if values.len() == 0 {
        seq![]
    } else {
        let rest = present_paths(values.drop_last());
        match values.last() {
            Some(p) => rest.push(p@),
            None => rest,
        }
    }
}

/// Keeps the project paths that the project list gave.
pub fn paths_with_namespace(values: &Vec<Option<String>>) -> (r: Vec<String>)
    ensures
        r@.map_values(|x: String| x@) == present_paths(values@),
{
    let mut out: Vec<String> = Vec::new();
    let mut i: usize = 0;
    while i < values.len()
        invariant
            i <= values@.len(),
            out@.map_values(|x: String| x@) == present_paths(values@.take(i as int)),
        decreases values.len() - i,
    {
        assert(values@.take(i + 1).drop_last() =~= values@.take(i as int));
        match &values[i] {
            Some(p) => {
                let ghost before = out@;
                out.push(p.clone());
                assert(out@.map_values(|x: String| x@) =~= before.map_values(|x: String| x@).push(p@));
            },
            None => {},
        }
        i = i + 1;
    }
    assert(values@.take(i as int) =~= values@);
    out
}

} // verus!

verus! {

/// Code point order on character sequences; for strings it is the order of
/// their UTF-8 bytes, which is how `str` compares.
pub open spec fn seq_less(a: Seq<char>, b: Seq<char>) -> bool
    decreases a.len(),
{
    if a.len() == 0 {
        b.len() > 0
    } else if b.len() == 0 {
        false
    } else if a[0] != b[0] {
        (a[0] as u32) < (b[0] as u32)
    } else {
        seq_less(a.drop_first(), b.drop_first())
    }
}

/// `a < b` on strings.
pub fn str_less(a: &str, b: &str) -> (r: bool)
    ensures
        r == seq_less(a@, b@),
{
    let x = chars_of(a);
    let y = chars_of(b);
    let mut i: usize = 0;
    assert(x@.skip(0) =~= x@);
    assert(y@.skip(0) =~= y@);
    while i < x.len() && i < y.len() && x[i] == y[i]
        invariant
            i <= x@.len(),
            i <= y@.len(),
            seq_less(a@, b@) == seq_less(x@.skip(i as int), y@.skip(i as int)),
            x@ == a@,
            y@ == b@,
        decreases x.len() - i,
    {
        assert(x@.skip(i as int).drop_first() =~= x@.skip(i + 1));
        assert(y@.skip(i as int).drop_first() =~= y@.skip(i + 1));
        i = i + 1;
    }
    if i == x.len() {
        assert(x@.skip(i as int).len() == 0);
        i < y.len()
    } else if i == y.len() {
        assert(y@.skip(i as int).len() == 0);
        false
    } else {
        assert(x@.skip(i as int)[0] == x@[i as int]);
        assert(y@.skip(i as int)[0] == y@[i as int]);
        (x[i] as u32) < (y[i] as u32)
    }
}

/// `x` put into a newest-first list: before the first merge request updated
/// strictly earlier, so after all that were updated at the same time.
pub open spec fn insert_newest_first(sorted: Seq<MergeRequest>, x: MergeRequest) -> Seq<MergeRequest>
    decreases sorted.len(),
{
    if sorted.len() == 0 {
        seq![x]
    } else if seq_less(sorted[0].updated_at@, x.updated_at@) {
        seq![x] + sorted
    } else {
        seq![sorted[0]] + insert_newest_first(sorted.drop_first(), x)
    }
}

/// The merge requests ordered by update time, newest first; those updated at
/// the same time keep their order (a stable sort).
pub open spec fn newest_first(s: Seq<MergeRequest>) -> Seq<MergeRequest>
    decreases s.len(),
{
    if s.len() == 0 {
        seq![]
    } else {
        insert_newest_first(newest_first(s.drop_last()), s.last())
    }
}

proof fn lemma_insert_at(sorted: Seq<MergeRequest>, x: MergeRequest, j: int)
    requires
        0 <= j <= sorted.len(),
        forall|k: int| 0 <= k < j ==> !seq_less(#[trigger] sorted[k].updated_at@, x.updated_at@),
        j < sorted.len() ==> seq_less(sorted[j].updated_at@, x.updated_at@),
    ensures
        insert_newest_first(sorted, x) == sorted.insert(j, x),
    decreases j,
{
    if j == 0 {
        assert(sorted.insert(0, x) =~= seq![x] + sorted);
    } else {
        let t = sorted.drop_first();
        assert forall|k: int| 0 <= k < j - 1 implies !seq_less(#[trigger] t[k].updated_at@, x.updated_at@) by {
            assert(t[k] == sorted[k + 1]);
        }
        lemma_insert_at(t, x, j - 1);
        assert(sorted.insert(j, x) =~= seq![sorted[0]] + t.insert(j - 1, x));
    }
}

proof fn lemma_seq_less_trans(a: Seq<char>, b: Seq<char>, c: Seq<char>)
    requires
        seq_less(a, b),
        seq_less(b, c),
    ensures
        seq_less(a, c),
    decreases a.len(),
{
    if a.len() > 0 && b.len() > 0 && c.len() > 0 && a[0] == b[0] && b[0] == c[0] {
        lemma_seq_less_trans(a.drop_first(), b.drop_first(), c.drop_first());
    }
}

proof fn lemma_seq_less_asym(a: Seq<char>, b: Seq<char>)
    requires
        seq_less(a, b),
    ensures
        !seq_less(b, a),
    decreases a.len(),
{
    if a.len() > 0 && b.len() > 0 && a[0] == b[0] {
        lemma_seq_less_asym(a.drop_first(), b.drop_first());
    }
}

/// No merge request comes before one updated later.
pub open spec fn is_newest_first(s: Seq<MergeRequest>) -> bool {
    forall|i: int, j: int| 0 <= i < j < s.len() ==> !seq_less(#[trigger] s[i].updated_at@, #[trigger] s[j].updated_at@)
}

proof fn lemma_insert_keeps(sorted: Seq<MergeRequest>, x: MergeRequest)
    requires
        is_newest_first(sorted),
    ensures
        is_newest_first(insert_newest_first(sorted, x)),
        insert_newest_first(sorted, x).to_multiset() == sorted.to_multiset().insert(x),
    decreases sorted.len(),
{
    broadcast use vstd::seq_lib::group_to_multiset_ensures;
    broadcast use vstd::seq_lib::lemma_multiset_commutative;

    let r = insert_newest_first(sorted, x);
    if sorted.len() == 0 {
        assert(seq![x] =~= Seq::<MergeRequest>::empty().push(x));
    } else if seq_less(sorted[0].updated_at@, x.updated_at@) {
        assert forall|i: int, j: int| 0 <= i < j < r.len() implies !seq_less(
            #[trigger] r[i].updated_at@,
            #[trigger] r[j].updated_at@,
        ) by {
            if i == 0 {
                let z = r[j];
                assert(z == sorted[j - 1]);
                lemma_seq_less_asym(sorted[0].updated_at@, x.updated_at@);
                if seq_less(x.updated_at@, z.updated_at@) && j - 1 > 0 {
                    lemma_seq_less_trans(sorted[0].updated_at@, x.updated_at@, z.updated_at@);
                    assert(!seq_less(sorted[0].updated_at@, sorted[j - 1].updated_at@));
                }
            } else {
                assert(r[i] == sorted[i - 1] && r[j] == sorted[j - 1]);
            }
        }
        assert(seq![x].to_multiset() =~= vstd::multiset::Multiset::<MergeRequest>::empty().insert(x)) by {
            assert(seq![x] =~= Seq::<MergeRequest>::empty().push(x));
        }
    } else {
        let t = sorted.drop_first();
        assert forall|i: int, j: int| 0 <= i < j < t.len() implies !seq_less(
            #[trigger] t[i].updated_at@,
            #[trigger] t[j].updated_at@,
        ) by {
            assert(t[i] == sorted[i + 1] && t[j] == sorted[j + 1]);
        }
        lemma_insert_keeps(t, x);
        let rt = insert_newest_first(t, x);
        assert(r == seq![sorted[0]] + rt);
        assert forall|i: int, j: int| 0 <= i < j < r.len() implies !seq_less(
            #[trigger] r[i].updated_at@,
            #[trigger] r[j].updated_at@,
        ) by {
            if i == 0 {
                assert(r[j] == rt[j - 1]);
                assert(rt.to_multiset().count(rt[j - 1]) > 0);
                assert(t.to_multiset().insert(x).count(rt[j - 1]) > 0);
                if rt[j - 1] != x {
                    assert(t.to_multiset().count(rt[j - 1]) > 0);
                    assert(t.contains(rt[j - 1]));
                    let k = choose|k: int| 0 <= k < t.len() && t[k] == rt[j - 1];
                    assert(sorted[k + 1] == t[k]);
                }
            } else {
                assert(r[i] == rt[i - 1] && r[j] == rt[j - 1]);
            }
        }
        assert(seq![sorted[0]] + t =~= sorted);
        assert(seq![sorted[0]].to_multiset() =~= vstd::multiset::Multiset::<MergeRequest>::empty().insert(sorted[0])) by {
            assert(seq![sorted[0]] =~= Seq::<MergeRequest>::empty().push(sorted[0]));
        }
    }
}

/// Ordering merge requests newest first keeps every one of them, as often
/// as it occurs, and puts none before one updated later.
pub proof fn lemma_newest_first_sorted(s: Seq<MergeRequest>)
    ensures
        newest_first(s).to_multiset() == s.to_multiset(),
        is_newest_first(newest_first(s)),
    decreases s.len(),
{
    broadcast use vstd::seq_lib::group_to_multiset_ensures;

    if s.len() > 0 {
        lemma_newest_first_sorted(s.drop_last());
        lemma_insert_keeps(newest_first(s.drop_last()), s.last());
        assert(s.drop_last().push(s.last()) =~= s);
    } else {
        assert(newest_first(s).to_multiset() =~= s.to_multiset());
    }
}

/// Sorts merge requests newest first, stably.
pub fn sort_newest_first(items: Vec<MergeRequest>) -> (r: Vec<MergeRequest>)
    ensures
        r@ == newest_first(items@),
{
    let ghost src = items@;
    let mut out: Vec<MergeRequest> = Vec::new();
    let mut n: usize = 0;
    let len = items.len();
    for x in it: items
        invariant
            it.seq() == src,
            src.len() == len,
            n == it.index(),
            out@ == newest_first(src.take(it.index() as int)),
    {
        let mut j: usize = 0;
        while j < out.len() && !str_less(out[j].updated_at.as_str(), x.updated_at.as_str())
            invariant
                j <= out@.len(),
                forall|k: int| 0 <= k < j ==> !seq_less(#[trigger] out@[k].updated_at@, x.updated_at@),
            decreases out.len() - j,
        {
            j = j + 1;
        }
        proof {
            lemma_insert_at(out@, x, j as int);
            assert(src.take(n + 1).drop_last() =~= src.take(n as int));
            assert(src.take(n + 1).last() == x);
        }
        out.insert(j, x);
        n = n + 1;
    }
    assert(src.take(src.len() as int) =~= src);
    out
}

} // verus!

verus! {

/// The merge requests of all projects that answered, in project order.
pub open spec fn fetched_mrs(rs: Seq<Result<Vec<MergeRequest>, String>>) -> Seq<MergeRequest>
    decreases rs.len(),
{
    if rs.len() == 0 {
        seq![]
    } else {
        fetched_mrs(rs.drop_last()) + match rs.last() {
            Ok(v) => v@,
            Err(_) => seq![],
        }
    }
}

/// The error of the last project that failed, if any did.
pub open spec fn last_failure(rs: Seq<Result<Vec<MergeRequest>, String>>) -> Option<Seq<char>>
    decreases rs.len(),
{
    if rs.len() == 0 {
        None
    } else {
        match rs.last() {
            Err(e) => Some(e@),
            Ok(_) => last_failure(rs.drop_last()),
        }
    }
}

/// The answer of a per-project listing: the last error where no project gave a
/// merge request and some project failed; otherwise all the merge requests,
/// newest first.
pub open spec fn project_list_outcome(rs: Seq<Result<Vec<MergeRequest>, String>>) -> Result<
    Seq<MergeRequest>,
    Seq<char>,
> {
    let all = fetched_mrs(rs);
    if all.len() == 0 && last_failure(rs) is Some {
        Err(last_failure(rs)->0)
    } else {
        Ok(newest_first(all))
    }
}

/// Merges the answers of the per-project listings, one per project in order.
pub fn collect_project_mrs(results: Vec<Result<Vec<MergeRequest>, String>>) -> (r: Result<
    Vec<MergeRequest>,
    String,
>)
    ensures
        match r {
            Ok(v) => project_list_outcome(results@) == Ok::<Seq<MergeRequest>, Seq<char>>(v@),
            Err(e) => project_list_outcome(results@) == Err::<Seq<MergeRequest>, Seq<char>>(e@),
        },
{
    let ghost src = results@;
    let mut all: Vec<MergeRequest> = Vec::new();
    let mut last_err: Option<String> = None;
    for res in it: results
        invariant
            it.seq() == src,
            all@ == fetched_mrs(src.take(it.index() as int)),
            match last_err {
                Some(e) => last_failure(src.take(it.index() as int)) == Some(e@),
                None => last_failure(src.take(it.index() as int)) is None,
            },
    {
        let ghost i = it.index();
        proof {
            assert(src.take(i + 1).drop_last() =~= src.take(i as int));
            assert(src.take(i + 1).last() == res);
        }
        match res {
            Ok(mut mrs) => {
                let ghost got = mrs@;
                all.append(&mut mrs);
                assert(all@ =~= fetched_mrs(src.take(i + 1)));
            },
            Err(e) => {
                last_err = Some(e);
                assert(fetched_mrs(src.take(i + 1)) =~= fetched_mrs(src.take(i as int)));
            },
        }
    }
    assert(src.take(src.len() as int) =~= src);
    if all.len() == 0 {
        if let Some(e) = last_err {
            return Err(e);
        }
    }
    Ok(sort_newest_first(all))
}

} // verus!
