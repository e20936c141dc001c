//! The user's settings: the GitLab server, the token, the projects to watch.
use vstd::prelude::*;

use crate::text::{
    chars_of, ends_with, has_prefix, has_suffix, is_ws, join_strings, join_with,
    lemma_lines_of_join, lemma_trim_end_last, lines, lines_of, push_str, skip_leading,
    string_of_range, strip_prefix, trim, trim_end_matching, trim_start, trim_start_char,
    trim_end_char, trimmed,
};

verus! {

/// A project to watch, as the user wrote it: a URL or a bare path.
#[derive(Clone, Debug)]
pub struct ProjectEntry {
    pub path: String,
}

/// The prefix a project URL on the server starts with: the server URL
/// without trailing slashes, then one slash.
pub open spec fn server_prefix(gitlab_url: Seq<char>) -> Seq<char> {
    trim_end_char(gitlab_url, '/') + "/"@
}

/// The bare project path of `path` for API calls: trimmed, the server URL
/// prefix (with one `/` after it) taken off where present, then leading
/// slashes taken off.
pub open spec fn normalized_path(path: Seq<char>, gitlab_url: Seq<char>) -> Seq<char> {
    let base = server_prefix(gitlab_url);
    let t = trim(path);
    let rest = if has_prefix(t, base) {
        t.skip(base.len() as int)
    } else {
        t
    };
    trim_start_char(rest, '/')
}

/// A project written as its URL on the server and as its bare path gives
/// the same API path: the bare path.
pub proof fn lemma_url_and_path_agree(gitlab_url: Seq<char>, p: Seq<char>)
    requires
        p.len() > 0,
        p[0] != '/',
        trim(p) == p,
        !has_prefix(p, server_prefix(gitlab_url)),
        trim(server_prefix(gitlab_url) + p) == server_prefix(gitlab_url) + p,
    ensures
        normalized_path(server_prefix(gitlab_url) + p, gitlab_url) == p,
        normalized_path(p, gitlab_url) == p,
{
    let base = server_prefix(gitlab_url);
    let full = base + p;
    assert(full.take(base.len() as int) =~= base);
    assert(has_prefix(full, base));
    assert(full.skip(base.len() as int) =~= p);
}

impl ProjectEntry {
    /// Bare path with the gitlab_url prefix stripped (for API calls).
    pub fn normalized(&self, gitlab_url: &str) -> (r: String)
        ensures
            r@ == normalized_path(self.path@, gitlab_url@),
    {
        let mut base = trim_end_matching(gitlab_url, '/');
        push_str(&mut base, "/");
        let t = trimmed(self.path.as_str());
        let rest = match strip_prefix(t.as_str(), base.as_str()) {
            Some(r) => r,
            None => t,
        };
        let v = chars_of(rest.as_str());
        let lo = skip_leading(&v, '/');
        assert(v@.subrange(lo as int, v@.len() as int) =~= v@.skip(lo as int));
        string_of_range(&v, lo, v.len())
    }
}

/// The settings.
#[derive(Clone, Debug)]
pub struct Config {
    pub gitlab_url: String,
    pub access_token: String,
    pub my_username: Option<String>,
    pub projects: Vec<ProjectEntry>,
    pub browser: Option<String>,
    pub default_worktree_path: Option<String>,
    pub ide_command: Option<String>,
}

impl Default for Config {
    fn default() -> (c: Config)
        ensures
            c.gitlab_url@.len() == 0,
            c.access_token@.len() == 0,
            c.my_username is None,
            c.projects@.len() == 0,
            c.browser is None,
            c.default_worktree_path is None,
            c.ide_command is None,
    {
        Config {
            gitlab_url: String::new(),
            access_token: String::new(),
            my_username: None,
            projects: Vec::new(),
            browser: None,
            default_worktree_path: None,
            ide_command: None,
        }
    }
}

/// The API paths of `projects`: each one normalized, the empty ones left out.
pub open spec fn api_paths(projects: Seq<ProjectEntry>, gitlab_url: Seq<char>) -> Seq<Seq<char>>
    decreases projects.len(),
{
    if projects.len() == 0 {
        seq![]
    } else {
        let rest = api_paths(projects.drop_last(), gitlab_url);
        let p = normalized_path(projects.last().path@, gitlab_url);
        if p.len() == 0 {
            rest
        } else {
            rest.push(p)
        }
    }
}

impl Config {
    /// Both the GitLab URL and the access token are set.
    pub fn is_configured(&self) -> (r: bool)
        ensures
            r == (self.gitlab_url@.len() > 0 && self.access_token@.len() > 0),
    {
        !self.gitlab_url.as_str().is_empty() && !self.access_token.as_str().is_empty()
    }

    /// Returns normalized bare paths for API calls.
    pub fn project_api_paths(&self) -> (r: Vec<String>)
        ensures
            r@.map_values(|x: String| x@) == api_paths(self.projects@, self.gitlab_url@),
    {
        let mut out: Vec<String> = Vec::new();
        let mut i: usize = 0;
        while i < self.projects.len()
            invariant
                i <= self.projects@.len(),
                out@.map_values(|x: String| x@) == api_paths(
                    self.projects@.take(i as int),
                    self.gitlab_url@,
                ),
            decreases self.projects.len() - i,
        {
            assert(self.projects@.take(i + 1).drop_last() =~= self.projects@.take(i as int));
            let p = self.projects[i].normalized(self.gitlab_url.as_str());
            if !p.as_str().is_empty() {
                out.push(p);
                assert(out@.map_values(|x: String| x@) =~= api_paths(
                    self.projects@.take(i as int),
                    self.gitlab_url@,
                ).push(p@));
            }
            i = i + 1;
        }
        assert(self.projects@.take(i as int) =~= self.projects@);
        out
    }
}

/// `base` joined with a relative component `name` as `Path::join` does it: no
/// separator after an empty base or one that already ends in `/`.
pub open spec fn path_join(base: Seq<char>, name: Seq<char>) -> Seq<char> {
    if base.len() == 0 {
        name
    } else if has_suffix(base, "/"@) {
        base + name
    } else {
        base + "/"@ + name
    }
}

/// `Path::join` of a relative component.
pub fn join_path(base: &str, name: &str) -> (r: String)
    ensures
        r@ == path_join(base@, name@),
{
    let mut r = String::new();
    push_str(&mut r, base);
    if !base.is_empty() && !ends_with(base, "/") {
        push_str(&mut r, "/");
    }
    push_str(&mut r, name);
    r
}

/// The settings directory under a platform configuration directory (`.` where
/// there is none).
pub open spec fn config_dir_under(base: Option<Seq<char>>) -> Seq<char> {
    path_join(
        match base {
            Some(b) => b,
            None => "."@,
        },
        "mrtui"@,
    )
}

/// `dirs::config_dir`: the platform's configuration directory (on Linux
/// `$XDG_CONFIG_HOME` or `$HOME/.config`), if it can be found, converted to a
/// string. It depends on the environment, so nothing is claimed of its result.
#[verifier::external_body]
fn platform_config_dir() -> (r: Option<String>) {
    dirs::config_dir().map(|p| p.to_string_lossy().into_owned())
}

/// The settings directory under `base`, or under `.` where there is none.
pub fn config_dir_in(base: Option<String>) -> (r: String)
    ensures
        r@ == config_dir_under(
            match base {
                Some(b) => Some(b@),
                None => None,
            },
        ),
{
    match base {
        Some(b) => join_path(b.as_str(), "mrtui"),
        None => join_path(".", "mrtui"),
    }
}

/// The settings directory: `mrtui` under the platform's configuration directory.
pub fn config_dir() -> (r: String)
    ensures
        exists|base: Option<Seq<char>>| r@ == config_dir_under(base),
{
    let base = platform_config_dir();
    let ghost b = match &base {
        Some(s) => Some(s@),
        None => None,
    };
    let r = config_dir_in(base);
    assert(r@ == config_dir_under(b));
    r
}

/// The settings file: `config.toml` in the settings directory.
pub fn config_path() -> (r: String)
    ensures
        exists|base: Option<Seq<char>>| r@ == path_join(config_dir_under(base), "config.toml"@),
{
    let dir = config_dir();
    join_path(dir.as_str(), "config.toml")
}

/// The project entries of the settings text: one per line, each trimmed, the
/// empty lines left out.
pub open spec fn project_lines(ls: Seq<Seq<char>>) -> Seq<Seq<char>>
    decreases ls.len(),
{
    if ls.len() == 0 {
        seq![]
    } else {
        let rest = project_lines(ls.drop_last());
        let t = trim(ls.last());
        if t.len() == 0 {
            rest
        } else {
            rest.push(t)
        }
    }
}

/// The paths of a list of project entries.
pub open spec fn entry_paths(ps: Seq<ProjectEntry>) -> Seq<Seq<char>> {
    ps.map_values(|e: ProjectEntry| e.path@)
}

/// A project entry as the settings text keeps it: a path that is not
/// empty, has no white space at either end and no line break in it.
pub open spec fn plain_entry(e: ProjectEntry) -> bool {
    &&& e.path@.len() > 0
    &&& trim(e.path@) == e.path@
    &&& !e.path@.contains('\n')
}

proof fn lemma_project_lines_plain(ls: Seq<Seq<char>>)
    requires
        forall|i: int| 0 <= i < ls.len() ==> (#[trigger] ls[i]).len() > 0 && trim(ls[i]) == ls[i],
    ensures
        project_lines(ls) == ls,
    decreases ls.len(),
{
    if ls.len() > 0 {
        let init = ls.drop_last();
        assert forall|i: int| 0 <= i < init.len() implies (#[trigger] init[i]).len() > 0 && trim(init[i])
            == init[i] by {
            assert(init[i] == ls[i]);
        }
        lemma_project_lines_plain(init);
        assert(ls.last() == ls[ls.len() - 1]);
        assert(init.push(ls.last()) =~= ls);
    }
}

/// Writing project entries out as the settings text and reading that text
/// back gives the same entries, for entries as the text keeps them.
pub proof fn lemma_projects_round_trip(ps: Seq<ProjectEntry>)
    requires
        forall|i: int| 0 <= i < ps.len() ==> plain_entry(#[trigger] ps[i]),
    ensures
        project_lines(lines_of(join_with(entry_paths(ps), "\n"@))) == entry_paths(ps),
{
    let ls = entry_paths(ps);
    assert forall|i: int| 0 <= i < ls.len() implies {
        &&& (#[trigger] ls[i]).len() > 0
        &&& !ls[i].contains('\n')
        &&& ls[i].last() != '\r'
    } by {
        assert(plain_entry(ps[i]));
        assert(ls[i] == ps[i].path@);
        lemma_trim_end_last(trim_start(ls[i]));
        assert(is_ws('\r'));
    }
    lemma_lines_of_join(ls);
    assert forall|i: int| 0 <= i < ls.len() implies (#[trigger] ls[i]).len() > 0 && trim(ls[i]) == ls[i] by {
        assert(plain_entry(ps[i]));
    }
    lemma_project_lines_plain(ls);
}

/// Parse settings textarea text into ProjectEntry list.
/// Format: one URL or path per line.
pub fn parse_projects_text(text: &str) -> (r: Vec<ProjectEntry>)
    ensures
        entry_paths(r@) == project_lines(lines_of(text@)),
{
    let ls = lines(text);
    let ghost lv = ls@.map_values(|x: String| x@);
    let mut out: Vec<ProjectEntry> = Vec::new();
    let mut i: usize = 0;
    while i < ls.len()
        invariant
            i <= ls@.len(),
            lv == ls@.map_values(|x: String| x@),
            lv == lines_of(text@),
            entry_paths(out@) == project_lines(lv.take(i as int)),
        decreases ls.len() - i,
    {
        assert(lv.take(i + 1).drop_last() =~= lv.take(i as int));
        let path = trimmed(ls[i].as_str());
        if !path.as_str().is_empty() {
            let ghost before = out@;
            out.push(ProjectEntry { path });
            assert(entry_paths(out@) =~= entry_paths(before).push(path@));
        }
        i = i + 1;
    }
    assert(lv.take(i as int) =~= lv);
    out
}

/// Convert ProjectEntry list to textarea display text.
pub fn projects_to_text(projects: &[ProjectEntry]) -> (r: String)
    ensures
        r@ == join_with(entry_paths(projects@), "\n"@),
{
    let mut paths: Vec<String> = Vec::new();
    let mut i: usize = 0;
    while i < projects.len()
        invariant
            i <= projects@.len(),
            paths@.len() == i,
            paths@.map_values(|x: String| x@) == entry_paths(projects@.take(i as int)),
        decreases projects.len() - i,
    {
        let p = projects[i].path.clone();
        assert(p@ == projects@[i as int].path@);
        assert(projects@.take(i + 1) =~= projects@.take(i as int).push(projects@[i as int]));
        let ghost before = paths@;
        paths.push(p);
        assert(paths@ =~= before.push(p));
        assert forall|k: int| 0 <= k < i implies #[trigger] paths@[k]@ == projects@[k].path@ by {
            assert(before.map_values(|x: String| x@)[k] == entry_paths(projects@.take(i as int))[k]);
        }
        assert(paths@.map_values(|x: String| x@) =~= entry_paths(projects@.take(i + 1)));
        i = i + 1;
    }
    assert(projects@.take(i as int) =~= projects@);
    join_strings(&paths, "\n")
}

} // verus!
