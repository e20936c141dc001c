//! The checkout panel: check the merge request's source branch out into a
//! new worktree at a path typed in, or in the current repository.
//!
//! The path is edited by the text widget the application holds; here it is
//! its lines as plain strings. The git work itself is done by the
//! application, which reports it with `AppEvent::WorktreeCreated`.
use vstd::prelude::*;

use crate::style::Tone;
use crate::text::{push_str, trim, trimmed};
use crate::tui::app::App;
use crate::tui::area::{sat_sub, Area};
use crate::tui::keys::{Key, KeyInput};

verus! {

/// A string holding `s`.
fn owned(s: &str) -> (r: String)
    ensures
        r@ == s@,
{
    let mut r = String::new();
    push_str(&mut r, s);
    r
}

/// Where the branch is checked out.
#[derive(Clone, Copy, Debug, PartialEq, Eq, Structural)]
pub enum CheckoutMode {
    /// In a new worktree at the path typed in.
    Worktree,
    /// In the current repository.
    Local,
}

/// The panel's own state.
#[derive(Clone, Copy, Debug, PartialEq, Eq, Structural)]
pub struct CheckoutPanelState {
    pub mode: CheckoutMode,
}

impl CheckoutPanelState {
    /// A panel for a new worktree; the path field starts with `default_path`
    /// as its one line.
    pub fn new(default_path: &str) -> (r: (CheckoutPanelState, Vec<String>))
        ensures
            r.0 == (CheckoutPanelState { mode: CheckoutMode::Worktree }),
            r.1@.len() == 1,
            r.1@[0]@ == default_path@,
    {
        let mut lines: Vec<String> = Vec::new();
        lines.push(owned(default_path));
        (CheckoutPanelState { mode: CheckoutMode::Worktree }, lines)
    }
}

/// The other mode.
pub open spec fn toggled(m: CheckoutMode) -> CheckoutMode {
    match m {
        CheckoutMode::Worktree => CheckoutMode::Local,
        CheckoutMode::Local => CheckoutMode::Worktree,
    }
}

/// The title and colour of the frame around the path field in a mode.
pub fn input_frame(mode: CheckoutMode) -> (r: (&'static str, Tone))
    ensures
        r.0@ == (match mode {
            CheckoutMode::Worktree => " Worktree path — Enter to confirm, Esc to cancel "@,
            CheckoutMode::Local => " Checkout in current repo — Enter to confirm, Esc to cancel "@,
        }),
        r.1 == (match mode {
            CheckoutMode::Worktree => Tone::Cyan,
            CheckoutMode::Local => Tone::Yellow,
        }),
{
    match mode {
        CheckoutMode::Worktree => (" Worktree path — Enter to confirm, Esc to cancel ", Tone::Cyan),
        CheckoutMode::Local => (" Checkout in current repo — Enter to confirm, Esc to cancel ", Tone::Yellow),
    }
}

/// What the application does after a key in the panel.
pub enum CheckoutCommand {
    /// Nothing more.
    Nothing,
    /// Hand the key to the path field.
    Edit,
    /// Add a worktree at `path` for `branch` in the repository at `repo`, then
    /// open it with the editor command, if one is set, when that succeeded.
    AddWorktree { repo: String, path: String, branch: String, ide: Option<String> },
    /// Check `branch` out in the repository at `repo`.
    CheckoutHere { repo: String, branch: String },
}

/// The source branch of the merge request shown, or the empty string.
pub open spec fn shown_branch(a: App) -> Seq<char> {
    match a.current_mr {
        Some(m) => m.source_branch@,
        None => seq![],
    }
}

/// The path typed in: the first line of the field, trimmed.
pub open spec fn typed_path(lines: Seq<String>) -> Seq<char> {
    if lines.len() == 0 {
        seq![]
    } else {
        trim(lines[0]@)
    }
}

/// The panel and the command after a key: Esc closes it, Tab switches the
/// mode, Enter asks for the checkout and closes it (in worktree mode only
/// with a path typed in), and other keys edit the path in worktree mode.
pub open spec fn checkout_key_effect(
    a: App,
    s: Option<CheckoutPanelState>,
    lines: Seq<String>,
    key: KeyInput,
    t: Option<CheckoutPanelState>,
    cmd: CheckoutCommand,
) -> bool {
    match s {
        None => t is None && cmd is Nothing,
        Some(p) => match key.key {
            Key::Esc => t is None && cmd is Nothing,
            Key::Tab => t == Some(CheckoutPanelState { mode: toggled(p.mode) }) && cmd is Nothing,
            Key::Enter => match p.mode {
                CheckoutMode::Worktree => if typed_path(lines).len() == 0 {
                    t == s && cmd is Nothing
                } else {
                    &&& t is None
                    &&& cmd matches CheckoutCommand::AddWorktree { repo, path, branch, ide }
                    &&& repo@ == a.repo_path@
                    &&& path@ == typed_path(lines)
                    &&& branch@ == shown_branch(a)
                    &&& ide == a.config.ide_command
                },
                CheckoutMode::Local => {
                    &&& t is None
                    &&& cmd matches CheckoutCommand::CheckoutHere { repo, branch }
                    &&& repo@ == a.repo_path@
                    &&& branch@ == shown_branch(a)
                },
            },
            _ => t == s && (if p.mode == CheckoutMode::Worktree {
                cmd is Edit
            } else {
                cmd is Nothing
            }),
        },
    }
}

/// A key while the panel may be open, with the path field's lines.
pub fn handle_key(app: &App, state: &mut Option<CheckoutPanelState>, lines: &Vec<String>, key: KeyInput) -> (cmd:
    CheckoutCommand)
    ensures
        checkout_key_effect(*app, *old(state), lines@, key, *final(state), cmd),
{
    let panel = match *state {
        Some(p) => p,
        None => return CheckoutCommand::Nothing,
    };
    match key.key {
        Key::Esc => {
            *state = None;
            CheckoutCommand::Nothing
        },
        Key::Tab => {
            let mode = match panel.mode {
                CheckoutMode::Worktree => CheckoutMode::Local,
                CheckoutMode::Local => CheckoutMode::Worktree,
            };
            *state = Some(CheckoutPanelState { mode });
            CheckoutCommand::Nothing
        },
        Key::Enter => {
            let branch = match &app.current_mr {
                Some(mr) => mr.source_branch.clone(),
                None => String::new(),
            };
            let repo = app.repo_path.clone();
            match panel.mode {
                CheckoutMode::Worktree => {
                    let path = if lines.len() == 0 {
                        String::new()
                    } else {
                        trimmed(lines[0].as_str())
                    };
                    if path.as_str().is_empty() {
                        return CheckoutCommand::Nothing;
                    }
                    let ide = match &app.config.ide_command {
                        Some(c) => Some(c.clone()),
                        None => None,
                    };
                    *state = None;
                    CheckoutCommand::AddWorktree { repo, path, branch, ide }
                },
                CheckoutMode::Local => {
                    *state = None;
                    CheckoutCommand::CheckoutHere { repo, branch }
                },
            }
        },
        _ => {
            if panel.mode == CheckoutMode::Worktree {
                CheckoutCommand::Edit
            } else {
                CheckoutCommand::Nothing
            }
        },
    }
}

/// Where the panel is drawn in `area`: at most 90 columns wide and 8 less
/// than the area, six rows high (less where the screen ends first), centred.
pub open spec fn popup_area(area: Area) -> Area {
    let w = if sat_sub(area.width as int, 8) < 90 { sat_sub(area.width as int, 8) } else { 90 };
    let x = area.x + sat_sub(area.width as int, w) / 2;
    let y = area.y + sat_sub(area.height as int, 6) / 2;
    Area {
        x: x as u16,
        y: y as u16,
        width: (if w > u16::MAX - x { u16::MAX - x } else { w }) as u16,
        height: (if 6 > u16::MAX - y { u16::MAX - y } else { 6 }) as u16,
    }
}

/// Where the panel is drawn in `area`.
pub fn popup(area: Area) -> (r: Area)
    requires
        area.x + area.width <= u16::MAX,
        area.y + area.height <= u16::MAX,
    ensures
        r == popup_area(area),
{
    let w = area.width.saturating_sub(8);
    let w = if w < 90 {
        w
    } else {
        90
    };
    let x = area.x + area.width.saturating_sub(w) / 2;
    let y = area.y + area.height.saturating_sub(6) / 2;
    let width = if w > u16::MAX - x {
        u16::MAX - x
    } else {
        w
    };
    let height = if 6 > u16::MAX - y {
        u16::MAX - y
    } else {
        6
    };
    Area { x, y, width, height }
}

/// The line inside the frame in local mode.
pub open spec fn local_text(a: App) -> Seq<char> {
    "  Checkout branch '"@ + shown_branch(a) + "' in current repo"@
}

/// The line inside the frame in local mode.
pub fn local_line(app: &App) -> (r: String)
    ensures
        r@ == local_text(*app),
{
    let mut r = owned("  Checkout branch '");
    match &app.current_mr {
        Some(mr) => push_str(&mut r, mr.source_branch.as_str()),
        None => {},
    }
    push_str(&mut r, "' in current repo");
    r
}

/// The line under the field: the branch and the repository.
pub open spec fn info_text(a: App) -> Seq<char> {
    "  Branch: "@ + shown_branch(a) + "  ·  repo: "@ + a.repo_path@
}

/// The line under the field.
pub fn info_line(app: &App) -> (r: String)
    ensures
        r@ == info_text(*app),
{
    let mut r = owned("  Branch: ");
    match &app.current_mr {
        Some(mr) => push_str(&mut r, mr.source_branch.as_str()),
        None => {},
    }
    push_str(&mut r, "  ·  repo: ");
    push_str(&mut r, app.repo_path.as_str());
    r
}

/// The line naming the mode Tab switches to.
pub fn mode_line(mode: CheckoutMode) -> (r: &'static str)
    ensures
        r@ == (match mode {
            CheckoutMode::Worktree => "  [Tab] switch to: Local checkout"@,
            CheckoutMode::Local => "  [Tab] switch to: Worktree"@,
        }),
{
    match mode {
        CheckoutMode::Worktree => "  [Tab] switch to: Local checkout",
        CheckoutMode::Local => "  [Tab] switch to: Worktree",
    }
}

} // verus!
