//! The settings screen: four text fields (GitLab URL, access token, projects,
//! worktree root), which one has the focus, whether it is being edited, and the
//! settings built from what the fields hold.
//!
//! The text editing itself is done by the text widget the application
//! holds; here the fields are their lines as plain strings.
use vstd::prelude::*;

use crate::config::{
    entry_paths, lemma_projects_round_trip, parse_projects_text, plain_entry, project_lines,
    projects_to_text, Config,
};
use crate::style::Tone;
use crate::text::{
    is_ws, join_strings, join_with, lemma_lines_of_join, lemma_trim_end_last, lines, lines_of,
    push_str, trim, trim_start, trimmed,
};
use crate::tui::app::{App, AppView};
use crate::tui::keys::{Key, KeyInput};

verus! {

/// The GitLab URL field.
pub const F_URL: usize = 0;

/// The access token field.
pub const F_TOKEN: usize = 1;

/// The projects field, the one with several lines.
pub const F_PROJECTS: usize = 2;

/// The worktree root field: where merge request branches are checked out.
pub const F_WORKTREE: usize = 3;

/// The number of fields.
pub const FIELD_COUNT: usize = 4;

/// A string holding `s`.
fn owned(s: &str) -> (r: String)
    ensures
        r@ == s@,
{
    let mut r = String::new();
    push_str(&mut r, s);
    r
}

/// The lines each field holds.
pub struct SettingsText {
    pub url: Vec<String>,
    pub token: Vec<String>,
    pub worktree: Vec<String>,
    pub projects: Vec<String>,
}

/// The lines of a field's views.
pub open spec fn line_views(ls: Seq<String>) -> Seq<Seq<char>> {
    ls.map_values(|x: String| x@)
}

/// The lines a text field starts with for a text: its lines, or one empty
/// line where it has none.
pub open spec fn field_lines(text: Seq<char>) -> Seq<Seq<char>> {
    if lines_of(text).len() == 0 {
        seq![Seq::<char>::empty()]
    } else {
        lines_of(text)
    }
}

/// The lines of a text, at least one.
fn text_lines(text: &str) -> (r: Vec<String>)
    ensures
        line_views(r@) == field_lines(text@),
{
    let mut ls = lines(text);
    if ls.len() == 0 {
        ls.push(String::new());
        assert(line_views(ls@) =~= seq![Seq::<char>::empty()]);
    }
    ls
}

/// The fields as the settings screen opens on `config`: the URL, the token
/// and the worktree root (empty without one) on one line each, the projects
/// one per line.
pub open spec fn opens_on(config: Config, text: SettingsText) -> bool {
    &&& line_views(text.url@) == seq![config.gitlab_url@]
    &&& line_views(text.token@) == seq![config.access_token@]
    &&& line_views(text.worktree@) == seq![
        match config.default_worktree_path {
            Some(w) => w@,
            None => Seq::<char>::empty(),
        },
    ]
    &&& line_views(text.projects@) == field_lines(join_with(entry_paths(config.projects@), "\n"@))
}

/// The fields as the settings screen opens on `config`.
pub fn initial_text(config: &Config) -> (r: SettingsText)
    ensures
        opens_on(*config, r),
{
    let mut url: Vec<String> = Vec::new();
    url.push(config.gitlab_url.clone());
    let mut token: Vec<String> = Vec::new();
    token.push(config.access_token.clone());
    let mut worktree: Vec<String> = Vec::new();
    match &config.default_worktree_path {
        Some(w) => worktree.push(w.clone()),
        None => worktree.push(String::new()),
    }
    assert(line_views(worktree@) =~= seq![
        match config.default_worktree_path {
            Some(w) => w@,
            None => Seq::<char>::empty(),
        },
    ]);
    let text = projects_to_text(config.projects.as_slice());
    let projects = text_lines(text.as_str());
    assert(line_views(url@) =~= seq![config.gitlab_url@]);
    assert(line_views(token@) =~= seq![config.access_token@]);
    SettingsText { url, token, worktree, projects }
}

/// Which field has the focus and whether it is being edited.
#[derive(Clone, Copy, Debug, PartialEq, Eq, Structural)]
pub struct SettingsState {
    pub active: usize,
    pub editing: bool,
}

impl SettingsState {
    /// The focus is always on one of the fields.
    pub open spec fn wf(self) -> bool {
        self.active < FIELD_COUNT
    }

    /// The URL field in focus, not being edited.
    pub fn new() -> (r: SettingsState)
        ensures
            r == (SettingsState { active: F_URL, editing: false }),
            r.wf(),
    {
        SettingsState { active: F_URL, editing: false }
    }

    /// Moves the focus to field `idx`, ending any edit.
    pub fn move_to(&mut self, idx: usize)
        requires
            idx < FIELD_COUNT,
        ensures
            *final(self) == (SettingsState { active: idx, editing: false }),
    {
        self.editing = false;
        self.active = idx;
    }

    /// Moves the focus to the next field, from the last back to the first.
    pub fn move_next(&mut self)
        requires
            old(self).wf(),
        ensures
            *final(self) == (SettingsState {
                active: ((old(self).active + 1) % (FIELD_COUNT as int)) as usize,
                editing: false,
            }),
    {
        self.move_to((self.active + 1) % FIELD_COUNT);
    }

    /// Moves the focus to the previous field, from the first to the last.
    pub fn move_prev(&mut self)
        requires
            old(self).wf(),
        ensures
            *final(self) == (SettingsState {
                active: ((old(self).active + FIELD_COUNT - 1) % (FIELD_COUNT as int)) as usize,
                editing: false,
            }),
    {
        self.move_to((self.active + FIELD_COUNT - 1) % FIELD_COUNT);
    }
}

/// The title of a field.
pub open spec fn label_of(idx: int) -> Seq<char> {
    if idx == F_URL {
        "[1] GitLab URL"@
    } else if idx == F_TOKEN {
        "[2] Personal Access Token"@
    } else if idx == F_PROJECTS {
        "[3] Projects  (one URL, path or numeric project ID per line)"@
    } else if idx == F_WORKTREE {
        "[4] Worktree root  (optional — where MR branches are checked out)"@
    } else {
        ""@
    }
}

/// The title of a field.
pub fn field_label(idx: usize) -> (r: &'static str)
    ensures
        r@ == label_of(idx as int),
{
    if idx == F_URL {
        "[1] GitLab URL"
    } else if idx == F_TOKEN {
        "[2] Personal Access Token"
    } else if idx == F_PROJECTS {
        "[3] Projects  (one URL, path or numeric project ID per line)"
    } else if idx == F_WORKTREE {
        "[4] Worktree root  (optional — where MR branches are checked out)"
    } else {
        ""
    }
}

/// A field's first line, trimmed (empty for a field with no lines).
pub open spec fn first_line_of(ls: Seq<Seq<char>>) -> Seq<char> {
    if ls.len() == 0 {
        seq![]
    } else {
        trim(ls[0])
    }
}

/// A field's first line, trimmed.
pub fn first_line(ls: &Vec<String>) -> (r: String)
    ensures
        r@ == first_line_of(line_views(ls@)),
{
    if ls.len() == 0 {
        String::new()
    } else {
        trimmed(ls[0].as_str())
    }
}

/// The error when the GitLab URL is missing.
pub open spec fn url_required() -> Seq<char> {
    "GitLab URL is required (e.g. https://gitlab.com)"@
}

/// The error when the access token is missing.
pub open spec fn token_required() -> Seq<char> {
    "Access token is required"@
}

/// The settings the fields describe: the trimmed first lines of the URL,
/// token and worktree root fields (no worktree root where the field is
/// empty), and the project entries of the projects field's lines joined by
/// newlines. The browser, which the form does not edit, is kept from the
/// settings `current`; the other settings are unset.
pub open spec fn config_from(text: SettingsText, current: Config, c: Config) -> bool {
    let worktree = first_line_of(line_views(text.worktree@));
    &&& c.gitlab_url@ == first_line_of(line_views(text.url@))
    &&& c.access_token@ == first_line_of(line_views(text.token@))
    &&& match current.browser {
        Some(b) => c.browser matches Some(x) && x@ == b@,
        None => c.browser is None,
    }
    &&& (worktree.len() == 0 ==> c.default_worktree_path is None)
    &&& (worktree.len() > 0 ==> (c.default_worktree_path matches Some(w) && w@ == worktree))
    &&& entry_paths(c.projects@) == project_lines(lines_of(join_with(line_views(text.projects@), "\n"@)))
    &&& c.my_username is None
    &&& c.ide_command is None
}

/// The settings the fields describe (with the browser of `current`), or the
/// error for a missing URL (checked first) or token.
pub fn build_config(text: &SettingsText, current: &Config) -> (r: Result<Config, String>)
    ensures
        first_line_of(line_views(text.url@)).len() == 0 ==> (r matches Err(e) && e@ == url_required()),
        first_line_of(line_views(text.url@)).len() > 0 && first_line_of(line_views(text.token@)).len()
            == 0 ==> (r matches Err(e) && e@ == token_required()),
        r is Ok <==> first_line_of(line_views(text.url@)).len() > 0 && first_line_of(
            line_views(text.token@),
        ).len() > 0,
        r matches Ok(c) ==> config_from(*text, *current, c),
{
    let gitlab_url = first_line(&text.url);
    let access_token = first_line(&text.token);
    let browser = match &current.browser {
        Some(b) => Some(owned(b.as_str())),
        None => None,
    };
    let w = first_line(&text.worktree);
    let worktree = if w.as_str().is_empty() {
        None
    } else {
        Some(w)
    };
    let joined = join_strings(&text.projects, "\n");
    let projects = parse_projects_text(joined.as_str());
    if gitlab_url.as_str().is_empty() {
        return Err(owned("GitLab URL is required (e.g. https://gitlab.com)"));
    }
    if access_token.as_str().is_empty() {
        return Err(owned("Access token is required"));
    }
    Ok(
        Config {
            gitlab_url,
            access_token,
            my_username: None,
            projects,
            browser,
            default_worktree_path: worktree,
            ide_command: None,
        },
    )
}

/// Settings as the settings screen keeps them: the URL and token set, with
/// no white space at either end, a worktree root likewise where there is
/// one, and plain project entries.
pub open spec fn plain_settings(c: Config) -> bool {
    &&& c.gitlab_url@.len() > 0 && trim(c.gitlab_url@) == c.gitlab_url@
    &&& c.access_token@.len() > 0 && trim(c.access_token@) == c.access_token@
    &&& (c.default_worktree_path matches Some(w) ==> w@.len() > 0 && trim(w@) == w@)
    &&& forall|i: int| 0 <= i < c.projects@.len() ==> plain_entry(#[trigger] c.projects@[i])
}

/// Saving the settings screen as it opened succeeds and keeps the settings
/// it opened on: the same URL, token, browser, worktree root and projects.
pub proof fn lemma_save_unchanged(config: Config, text: SettingsText, c: Config)
    requires
        opens_on(config, text),
        plain_settings(config),
        config_from(text, config, c),
    ensures
        first_line_of(line_views(text.url@)).len() > 0,
        first_line_of(line_views(text.token@)).len() > 0,
        c.gitlab_url@ == config.gitlab_url@,
        c.access_token@ == config.access_token@,
        match config.browser {
            Some(b) => c.browser matches Some(x) && x@ == b@,
            None => c.browser is None,
        },
        match config.default_worktree_path {
            Some(w) => c.default_worktree_path matches Some(x) && x@ == w@,
            None => c.default_worktree_path is None,
        },
        entry_paths(c.projects@) == entry_paths(config.projects@),
{
    reveal_strlit("\n");
    let paths = entry_paths(config.projects@);
    lemma_projects_round_trip(config.projects@);
    assert(trim(Seq::<char>::empty()) =~= Seq::<char>::empty());
    let joined = join_with(paths, "\n"@);
    if lines_of(joined).len() == 0 {
        if paths.len() > 0 {
            assert(project_lines(lines_of(joined)) =~= Seq::<Seq<char>>::empty());
            assert(false);
        }
        assert(joined =~= Seq::<char>::empty());
        assert(join_with(seq![Seq::<char>::empty()], "\n"@) =~= joined);
    } else {
        assert forall|i: int| 0 <= i < paths.len() implies {
            &&& (#[trigger] paths[i]).len() > 0
            &&& !paths[i].contains('\n')
            &&& paths[i].last() != '\r'
        } by {
            assert(plain_entry(config.projects@[i]));
            lemma_plain_no_cr(paths[i]);
        }
        lemma_lines_of_join(paths);
    }
}

proof fn lemma_plain_no_cr(p: Seq<char>)
    requires
        p.len() > 0,
        trim(p) == p,
    ensures
        p.last() != '\r',
{
    lemma_trim_end_last(trim_start(p));
    assert(is_ws('\r'));
}

/// What the application does after a key on the settings screen.
pub enum SettingsCommand {
    /// Nothing more.
    Nothing,
    /// Save these settings, then report them with `AppEvent::ConfigSaved`,
    /// or the failure with `save_failed`.
    Save(Config),
    /// Hand the key to the text field in focus.
    Edit,
}

/// The focus after Tab or Down: the next field.
pub open spec fn next_state(s: SettingsState) -> SettingsState {
    SettingsState { active: ((s.active + 1) % (FIELD_COUNT as int)) as usize, editing: false }
}

/// The focus after Shift+Tab or Up: the previous field.
pub open spec fn prev_state(s: SettingsState) -> SettingsState {
    SettingsState { active: ((s.active + FIELD_COUNT - 1) % (FIELD_COUNT as int)) as usize, editing: false }
}

/// Moving the focus on and back (or back, then on) returns it to the field
/// it was on, the focus stays on a field, and it wraps round the four fields
/// at both ends.
pub proof fn lemma_focus_round_trip(s: SettingsState)
    requires
        s.wf(),
    ensures
        next_state(s).wf(),
        prev_state(s).wf(),
        prev_state(next_state(s)) == (SettingsState { editing: false, ..s }),
        next_state(prev_state(s)) == (SettingsState { editing: false, ..s }),
        s.active == F_WORKTREE ==> next_state(s).active == F_URL,
        s.active == F_URL ==> prev_state(s).active == F_WORKTREE,
{
}

/// The field a digit key moves to: `1` to `4`.
pub open spec fn digit_field(c: char) -> Option<usize> {
    if c == '1' {
        Some(F_URL)
    } else if c == '2' {
        Some(F_TOKEN)
    } else if c == '3' {
        Some(F_PROJECTS)
    } else if c == '4' {
        Some(F_WORKTREE)
    } else {
        None
    }
}

/// The state, application state and command after a key on the settings
/// screen. Control+S saves (or shows why it cannot); while a field is being
/// edited, Esc (and Enter outside the projects field) stops editing, Tab in
/// the projects field moves on, and other keys go to the field; otherwise Esc
/// leaves the screen, Space or Enter edits, Tab/Down and Shift+Tab/Up move,
/// and `1` to `4` pick a field.
pub open spec fn settings_key_effect(
    a: App,
    s: SettingsState,
    text: SettingsText,
    key: KeyInput,
    b: App,
    t: SettingsState,
    cmd: SettingsCommand,
) -> bool {
    let url = first_line_of(line_views(text.url@));
    let token = first_line_of(line_views(text.token@));
    if key.key == Key::Char('s') && key.ctrl {
        &&& t == s
        &&& if url.len() > 0 && token.len() > 0 {
            b == a && (cmd matches SettingsCommand::Save(c) && config_from(text, a.config, c))
        } else {
            &&& cmd is Nothing
            &&& b == App { error: b.error, ..a }
            &&& b.error matches Some(e) && e@ == (if url.len() == 0 { url_required() } else { token_required() })
        }
    } else if s.editing {
        &&& b == a
        &&& match key.key {
            Key::Esc => t == SettingsState { editing: false, ..s } && cmd is Nothing,
            Key::Enter if s.active != F_PROJECTS => t == SettingsState { editing: false, ..s }
                && cmd is Nothing,
            Key::Tab if s.active == F_PROJECTS => t == next_state(s) && cmd is Nothing,
            _ => t == s && cmd is Edit,
        }
    } else {
        &&& cmd is Nothing
        &&& match key.key {
            Key::Esc => t == s && b == App { view: AppView::MrList, error: None, ..a },
            Key::Char(' ') | Key::Enter => b == a && t == SettingsState { editing: true, ..s },
            Key::Tab | Key::Down => b == a && t == next_state(s),
            Key::BackTab | Key::Up => b == a && t == prev_state(s),
            Key::Char(c) => b == a && t == match digit_field(c) {
                Some(i) => SettingsState { active: i, editing: false },
                None => s,
            },
            _ => b == a && t == s,
        }
    }
}

/// A key on the settings screen, with the fields' lines as they are.
pub fn handle_key(app: &mut App, state: &mut SettingsState, text: &SettingsText, key: KeyInput) -> (cmd:
    SettingsCommand)
    requires
        old(state).wf(),
    ensures
        final(state).wf(),
        settings_key_effect(*old(app), *old(state), *text, key, *final(app), *final(state), cmd),
{
    let cmd = if key.ctrl && key.key == Key::Char('s') {
        match build_config(text, &app.config) {
            Ok(c) => SettingsCommand::Save(c),
            Err(msg) => {
                app.error = Some(msg);
                SettingsCommand::Nothing
            },
        }
    } else if state.editing {
        match key.key {
            Key::Esc => {
                state.editing = false;
                SettingsCommand::Nothing
            },
            Key::Enter if state.active != F_PROJECTS => {
                state.editing = false;
                SettingsCommand::Nothing
            },
            Key::Tab if state.active == F_PROJECTS => {
                state.move_next();
                SettingsCommand::Nothing
            },
            _ => SettingsCommand::Edit,
        }
    } else {
        match key.key {
            Key::Esc => {
                app.view = AppView::MrList;
                app.error = None;
            },
            Key::Char(' ') | Key::Enter => {
                state.editing = true;
            },
            Key::Tab | Key::Down => state.move_next(),
            Key::BackTab | Key::Up => state.move_prev(),
            Key::Char('1') => state.move_to(F_URL),
            Key::Char('2') => state.move_to(F_TOKEN),
            Key::Char('3') => state.move_to(F_PROJECTS),
            Key::Char('4') => state.move_to(F_WORKTREE),
            _ => {},
        }
        SettingsCommand::Nothing
    };
    assert(has_resolved(state));
    cmd
}

/// The error shown when saving the settings failed.
pub fn save_failed(app: &mut App, reason: &str)
    ensures
        *final(app) == (App { error: final(app).error, ..*old(app) }),
        final(app).error matches Some(e) && e@ == "Save failed: "@ + reason@,
{
    let mut e = owned("Save failed: ");
    push_str(&mut e, reason);
    app.error = Some(e);
}

/// How a field is framed.
pub struct FieldFrame {
    /// The title in the frame.
    pub title: String,
    /// The frame's colour: green while editing, yellow in focus, dark gray otherwise.
    pub border: Tone,
    /// Whether the cursor shows (reversed) as it does while editing.
    pub cursor_shown: bool,
}

/// The title of field `idx`: with a hint how to edit it while it has the
/// focus and is not being edited.
pub open spec fn frame_title(s: SettingsState, idx: int) -> Seq<char> {
    let focused = idx == s.active;
    let editing = focused && s.editing;
    if focused && !editing {
        " "@ + label_of(idx) + " — "@ + (if idx == F_PROJECTS {
            "Space to edit · Tab to move on"@
        } else {
            "Space to edit"@
        }) + " "@
    } else {
        " "@ + label_of(idx) + " "@
    }
}

/// How field `idx` is framed in state `state`.
pub fn field_frame(state: &SettingsState, idx: usize) -> (r: FieldFrame)
    ensures
        r.title@ == frame_title(*state, idx as int),
        r.border == (if idx == state.active && state.editing {
            Tone::Green
        } else if idx == state.active {
            Tone::Yellow
        } else {
            Tone::DarkGray
        }),
        r.cursor_shown == (idx == state.active && state.editing),
{
    let focused = idx == state.active;
    let editing = focused && state.editing;
    let border = if editing {
        Tone::Green
    } else if focused {
        Tone::Yellow
    } else {
        Tone::DarkGray
    };
    let mut title = owned(" ");
    push_str(&mut title, field_label(idx));
    if focused && !editing {
        push_str(&mut title, " — ");
        if idx == F_PROJECTS {
            push_str(&mut title, "Space to edit · Tab to move on");
        } else {
            push_str(&mut title, "Space to edit");
        }
    }
    push_str(&mut title, " ");
    FieldFrame { title, border, cursor_shown: editing }
}

} // verus!
