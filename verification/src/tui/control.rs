//! How the terminal interface routes its input: a key to the help popup,
//! the checkout panel or the screen shown; the mouse wheel to the list or
//! the detail screen; a background result to the application state.
//!
//! The application runs the loop: it reads the input, calls these, and
//! performs what they hand back.
use vstd::prelude::*;

use crate::config::{path_join, join_path, Config};
use crate::gitlab::types::{same_mr, MergeRequest};
use crate::tui::app::{
    event_effect, lemma_visible_at_most, visible_spec, App, AppCommand, AppEvent, AppView,
};
use crate::tui::keys::{Key, KeyInput};
use crate::tui::views::checkout_panel::{
    checkout_key_effect, CheckoutCommand, CheckoutMode, CheckoutPanelState,
};
use crate::tui::views::mr_detail::{detail_key_effect, detail_key_ok, DetailState, DetailTab};
use crate::tui::views::mr_list::list_key_effect;
use crate::tui::views::settings::{
    initial_text, opens_on, settings_key_effect, SettingsCommand, SettingsState, SettingsText,
    F_URL, FIELD_COUNT,
};

verus! {

/// The screens' own state beside the application state.
#[derive(Clone, Copy, Debug, PartialEq, Eq, Structural)]
pub struct Screens {
    pub detail: DetailState,
    pub settings: SettingsState,
    /// The checkout panel, while it is open.
    pub checkout: Option<CheckoutPanelState>,
}

impl Screens {
    /// The description tab at the top, the URL field in focus, no panel open.
    pub fn new() -> (r: Screens)
        ensures
            r == (Screens {
                detail: DetailState { tab: DetailTab::Description, scroll: 0 },
                settings: SettingsState { active: F_URL, editing: false },
                checkout: None,
            }),
    {
        Screens { detail: DetailState::new(), settings: SettingsState::new(), checkout: None }
    }
}

/// What the application does after a key.
pub enum KeyOutcome {
    /// Leave the program.
    Quit,
    /// Start these commands.
    Commands(Vec<AppCommand>),
    /// What the settings screen asks for.
    Settings(SettingsCommand),
    /// What the checkout panel asks for.
    Checkout(CheckoutCommand),
    /// The checkout panel opened; its path field starts with these lines.
    CheckoutOpened(Vec<String>),
}

/// The path a checkout of `branch` proposes: the branch under the worktree
/// root where one is set, else the branch name itself.
pub open spec fn checkout_path(config: Config, branch: Seq<char>) -> Seq<char> {
    match config.default_worktree_path {
        Some(root) => path_join(root@, branch),
        None => branch,
    }
}

/// The path a checkout of `branch` proposes.
pub fn checkout_path_for(config: &Config, branch: &str) -> (r: String)
    ensures
        r@ == checkout_path(*config, branch@),
{
    match &config.default_worktree_path {
        Some(root) => join_path(root.as_str(), branch),
        None => {
            let mut r = String::new();
            crate::text::push_str(&mut r, branch);
            r
        },
    }
}

/// `a - b` on `u16`, or zero.
pub open spec fn down_by(a: u16, b: int) -> u16 {
    if a >= b {
        (a - b) as u16
    } else {
        0
    }
}

/// The state after a key while the help popup shows: the arrows and
/// page keys scroll it, any other key closes it.
pub open spec fn help_key_effect(a: App, key: KeyInput, b: App) -> bool {
    match key.key {
        Key::Up | Key::Char('k') => b == App { help_scroll: down_by(a.help_scroll, 1), ..a },
        Key::Down | Key::Char('j') => b == App { help_scroll: (a.help_scroll + 1) as u16, ..a },
        Key::PageUp => b == App { help_scroll: down_by(a.help_scroll, 10), ..a },
        Key::PageDown => b == App { help_scroll: (a.help_scroll + 10) as u16, ..a },
        _ => b == App { show_help: false, ..a },
    }
}

/// The state a key starts from once it reaches a screen: no status
/// message, and no error unless the key is `q`.
pub open spec fn cleared(a: App, key: KeyInput) -> App {
    App {
        status_msg: None,
        error: if key.key == Key::Char('q') {
            a.error
        } else {
            None
        },
        ..a
    }
}

/// What a key asks of the state so that no counter overflows: scrolling the
/// help popup, or the detail screen, stays within a `u16`.
pub open spec fn key_ok(a: App, s: Screens, key: KeyInput) -> bool {
    &&& s.settings.wf()
    &&& (a.show_help && key.key != Key::Char('?') ==> match key.key {
        Key::Down | Key::Char('j') => a.help_scroll < u16::MAX,
        Key::PageDown => a.help_scroll + 10 <= u16::MAX,
        _ => true,
    })
    &&& (a.view == AppView::MrDetail && s.checkout is None ==> detail_key_ok(cleared(a, key), s.detail, key))
}

/// Whether a key keeps the counters within a `u16` (`key_ok`).
pub fn key_fits(app: &App, screens: &Screens, key: KeyInput) -> (r: bool)
    ensures
        r == key_ok(*app, *screens, key),
{
    if screens.settings.active >= FIELD_COUNT {
        return false;
    }
    if app.show_help && key.key != Key::Char('?') {
        let fits = match key.key {
            Key::Down | Key::Char('j') => app.help_scroll < u16::MAX,
            Key::PageDown => app.help_scroll <= u16::MAX - 10,
            _ => true,
        };
        if !fits {
            return false;
        }
    }
    if app.view == AppView::MrDetail && screens.checkout.is_none() {
        let ghost a1 = cleared(*app, key);
        let ok = crate::tui::views::mr_detail::detail_key_fits(app, &screens.detail, key);
        proof {
            assert(a1.current_diff == app.current_diff);
        }
        return ok;
    }
    true
}

/// Whether the mouse wheel keeps the detail screen's scroll within a `u16`.
pub fn wheel_fits(app: &App, screens: &Screens, up: bool) -> (r: bool)
    ensures
        r == (!up && app.view == AppView::MrDetail ==> screens.detail.scroll + 3 <= u16::MAX),
{
    up || app.view != AppView::MrDetail || screens.detail.scroll <= u16::MAX - 3
}

/// The panel opening on merge request `m`, which becomes the one shown.
pub open spec fn opens_checkout(a: App, s: Screens, m: MergeRequest, b: App, t: Screens, out: KeyOutcome) -> bool {
    &&& b == App { current_mr: b.current_mr, ..a }
    &&& b.current_mr matches Some(x) && same_mr(x, m)
    &&& t == Screens { checkout: Some(CheckoutPanelState { mode: CheckoutMode::Worktree }), ..s }
    &&& out matches KeyOutcome::CheckoutOpened(ls) && ls@.len() == 1 && ls@[0]@ == checkout_path(
        a.config,
        m.source_branch@,
    )
}

/// No change and nothing to do.
pub open spec fn nothing(out: KeyOutcome) -> bool {
    out matches KeyOutcome::Commands(v) && v@.len() == 0
}

/// The state and what the application does after a key: `?` toggles the
/// help popup, which takes the keys while it shows; Control+C quits, and so
/// does `q` in the list (not searching, no panel open); otherwise the status
/// message and (but for `q`) the error are cleared, and the key goes to the
/// checkout panel when it is open, else to the screen shown, where `c` opens
/// the panel on the merge request selected or shown.
pub open spec fn key_effect(
    a: App,
    s: Screens,
    text: SettingsText,
    lines: Seq<String>,
    key: KeyInput,
    b: App,
    t: Screens,
    out: KeyOutcome,
) -> bool {
    if key.key == Key::Char('?') {
        &&& b == App {
            show_help: !a.show_help,
            help_scroll: if a.show_help {
                a.help_scroll
            } else {
                0
            },
            ..a
        }
        &&& t == s
        &&& nothing(out)
    } else if a.show_help {
        help_key_effect(a, key, b) && t == s && nothing(out)
    } else if key.key == Key::Char('c') && key.ctrl {
        b == a && t == s && out is Quit
    } else if key.key == Key::Char('q') && a.view == AppView::MrList && !a.local_search_active
        && s.checkout is None {
        b == a && t == s && out is Quit
    } else {
        let a1 = cleared(a, key);
        if s.checkout is Some {
            &&& b == a1
            &&& t == Screens { checkout: t.checkout, ..s }
            &&& out matches KeyOutcome::Checkout(cmd) && checkout_key_effect(
                a1,
                s.checkout,
                lines,
                key,
                t.checkout,
                cmd,
            )
        } else {
            match a.view {
                AppView::MrList => if key.key == Key::Char('c') && !a.local_search_active {
                    let v = visible_spec(a.mrs@, a.local_search@);
                    if a.selected_row < v.len() {
                        opens_checkout(a1, s, v[a.selected_row as int], b, t, out)
                    } else {
                        b == a1 && t == s && nothing(out)
                    }
                } else {
                    &&& out matches KeyOutcome::Commands(cmds) && list_key_effect(a1, key, b, cmds@)
                    &&& t == (if b.view == AppView::MrDetail && b.current_mr is Some {
                        Screens { detail: DetailState { tab: DetailTab::Description, scroll: 0 }, ..s }
                    } else {
                        s
                    })
                },
                AppView::MrDetail => if key.key == Key::Char('c') {
                    match a1.current_mr {
                        Some(m) => opens_checkout(a1, s, m, b, t, out),
                        None => b == a1 && t == s && nothing(out),
                    }
                } else {
                    &&& t == Screens { detail: t.detail, ..s }
                    &&& out matches KeyOutcome::Commands(cmds) && detail_key_effect(
                        a1,
                        s.detail,
                        key,
                        b,
                        t.detail,
                        cmds@,
                    )
                },
                AppView::Settings => {
                    &&& t == Screens { settings: t.settings, ..s }
                    &&& out matches KeyOutcome::Settings(cmd) && settings_key_effect(
                        a1,
                        s.settings,
                        text,
                        key,
                        b,
                        t.settings,
                        cmd,
                    )
                },
            }
        }
    }
}

/// Opens the checkout panel on a copy of `mr`, which becomes the merge
/// request shown.
fn open_checkout(app: &mut App, screens: &mut Screens, mr: MergeRequest) -> (out: KeyOutcome)
    ensures
        opens_checkout(*old(app), *old(screens), mr, *final(app), *final(screens), out),
{
    let path = checkout_path_for(&app.config, mr.source_branch.as_str());
    let (panel, lines) = CheckoutPanelState::new(path.as_str());
    app.current_mr = Some(mr);
    screens.checkout = Some(panel);
    KeyOutcome::CheckoutOpened(lines)
}

/// A key, with the settings fields' lines and the checkout path field's lines.
pub fn route_key(
    app: &mut App,
    screens: &mut Screens,
    text: &SettingsText,
    lines: &Vec<String>,
    key: KeyInput,
) -> (out: KeyOutcome)
    requires
        key_ok(*old(app), *old(screens), key),
    ensures
        final(screens).settings.wf(),
        key_effect(*old(app), *old(screens), *text, lines@, key, *final(app), *final(screens), out),
{
    if key.key == Key::Char('?') {
        app.show_help = !app.show_help;
        if app.show_help {
            app.help_scroll = 0;
        }
        return KeyOutcome::Commands(Vec::new());
    }
    if app.show_help {
        match key.key {
            Key::Up | Key::Char('k') => app.help_scroll = app.help_scroll.saturating_sub(1),
            Key::Down | Key::Char('j') => app.help_scroll = app.help_scroll + 1,
            Key::PageUp => app.help_scroll = app.help_scroll.saturating_sub(10),
            Key::PageDown => app.help_scroll = app.help_scroll + 10,
            _ => app.show_help = false,
        }
        return KeyOutcome::Commands(Vec::new());
    }
    if key.key == Key::Char('c') && key.ctrl {
        return KeyOutcome::Quit;
    }
    if key.key == Key::Char('q') {
        if app.view == AppView::MrList && !app.local_search_active && screens.checkout.is_none() {
            return KeyOutcome::Quit;
        }
    }
    app.status_msg = None;
    if key.key != Key::Char('q') {
        app.error = None;
    }
    if screens.checkout.is_some() {
        let cmd = crate::tui::views::checkout_panel::handle_key(app, &mut screens.checkout, lines, key);
        return KeyOutcome::Checkout(cmd);
    }
    match app.view {
        AppView::MrList => {
            if key.key == Key::Char('c') && !app.local_search_active {
                let picked = match app.selected_mr() {
                    Some(m) => Some(m.duplicate()),
                    None => None,
                };
                match picked {
                    Some(mr) => open_checkout(app, screens, mr),
                    None => KeyOutcome::Commands(Vec::new()),
                }
            } else {
                let cmds = crate::tui::views::mr_list::handle_key(app, key);
                if app.view == AppView::MrDetail && app.current_mr.is_some() {
                    screens.detail = DetailState::new();
                }
                KeyOutcome::Commands(cmds)
            }
        },
        AppView::MrDetail => {
            if key.key == Key::Char('c') {
                let shown = match &app.current_mr {
                    Some(m) => Some(m.duplicate()),
                    None => None,
                };
                match shown {
                    Some(mr) => {
                        let ghost a1 = *app;
                        let out = open_checkout(app, screens, mr);
                        proof {
                            let m = a1.current_mr->0;
                            assert(same_mr(mr, m));
                        }
                        out
                    },
                    None => KeyOutcome::Commands(Vec::new()),
                }
            } else {
                let cmds = crate::tui::views::mr_detail::handle_key(app, &mut screens.detail, key);
                KeyOutcome::Commands(cmds)
            }
        },
        AppView::Settings => {
            let cmd = crate::tui::views::settings::handle_key(app, &mut screens.settings, text, key);
            KeyOutcome::Settings(cmd)
        },
    }
}

/// The list's cursor row after the wheel turned up: three rows up, not
/// past the first.
pub open spec fn rows_up(row: usize) -> usize {
    if row >= 3 {
        (row - 3) as usize
    } else {
        0
    }
}

/// The list's cursor row after the wheel turned down: three rows down, not
/// past the last visible row (a row already past it stays).
pub open spec fn rows_down(row: usize, n: nat) -> usize {
    let max = if n > 0 { n - 1 } else { 0 };
    if row >= max {
        row
    } else if row + 3 <= max {
        (row + 3) as usize
    } else {
        max as usize
    }
}

/// The state after the mouse wheel turned: in the list the cursor moves
/// three rows, on the detail screen the view scrolls three lines; elsewhere
/// nothing changes.
pub open spec fn wheel_effect(a: App, s: Screens, up: bool, b: App, t: Screens) -> bool {
    match a.view {
        AppView::MrList => {
            let n = visible_spec(a.mrs@, a.local_search@).len();
            &&& t == s
            &&& b == App {
                selected_row: if up {
                    rows_up(a.selected_row)
                } else {
                    rows_down(a.selected_row, n)
                },
                ..a
            }
        },
        AppView::MrDetail => {
            &&& b == a
            &&& t == Screens {
                detail: DetailState {
                    scroll: if up {
                        down_by(s.detail.scroll, 3)
                    } else {
                        (s.detail.scroll + 3) as u16
                    },
                    ..s.detail
                },
                ..s
            }
        },
        AppView::Settings => b == a && t == s,
    }
}

/// The list's cursor after the wheel turned.
fn wheel_list(app: &mut App, up: bool)
    ensures
        *final(app) == (App {
            selected_row: if up {
                rows_up(old(app).selected_row)
            } else {
                rows_down(old(app).selected_row, visible_spec(old(app).mrs@, old(app).local_search@).len())
            },
            ..*old(app)
        }),
{
    let held = app.mrs.len();
    proof {
        lemma_visible_at_most(app.mrs@, app.local_search@);
        assert(visible_spec(app.mrs@, app.local_search@).len() <= held);
    }
    if up {
        app.move_up();
        app.move_up();
        app.move_up();
    } else {
        app.move_down();
        app.move_down();
        app.move_down();
    }
    assert(has_resolved(app));
}

/// The mouse wheel turned up (or down).
pub fn route_wheel(app: &mut App, screens: &mut Screens, up: bool)
    requires
        !up && old(app).view == AppView::MrDetail ==> old(screens).detail.scroll + 3 <= u16::MAX,
    ensures
        wheel_effect(*old(app), *old(screens), up, *final(app), *final(screens)),
{
    if app.view == AppView::MrList {
        wheel_list(app, up);
    } else if app.view == AppView::MrDetail {
        let s = screens.detail.scroll;
        let next = if up {
            s.saturating_sub(3)
        } else {
            s + 3
        };
        screens.detail = DetailState { tab: screens.detail.tab, scroll: next };
    }
}

/// A background result: the application takes it in, and when the settings
/// screen was or is shown, it starts over on the settings as they are now
/// (the new fields are handed back).
pub fn route_event(app: &mut App, screens: &mut Screens, event: AppEvent) -> (r: (
    Vec<AppCommand>,
    Option<SettingsText>,
))
    ensures
        event_effect(*old(app), event, *final(app), r.0@),
        (old(app).view == AppView::Settings || final(app).view == AppView::Settings) ==> {
            &&& *final(screens) == Screens {
                settings: SettingsState { active: F_URL, editing: false },
                ..*old(screens)
            }
            &&& r.1 matches Some(text) && opens_on(final(app).config, text)
        },
        !(old(app).view == AppView::Settings || final(app).view == AppView::Settings) ==> {
            &&& *final(screens) == *old(screens)
            &&& r.1 is None
        },
{
    let was_settings = app.view == AppView::Settings;
    let cmds = app.handle_event(event);
    if was_settings || app.view == AppView::Settings {
        screens.settings = SettingsState::new();
        (cmds, Some(initial_text(&app.config)))
    } else {
        (cmds, None)
    }
}

/// Pressing `?` twice leaves the help popup shown or hidden as it was, and
/// nothing else changed but its scroll position.
pub proof fn lemma_help_toggle_twice(
    a: App,
    s: Screens,
    text: SettingsText,
    lines: Seq<String>,
    k1: KeyInput,
    b: App,
    t: Screens,
    o1: KeyOutcome,
    k2: KeyInput,
    c: App,
    u: Screens,
    o2: KeyOutcome,
)
    requires
        k1.key == Key::Char('?'),
        k2.key == Key::Char('?'),
        key_effect(a, s, text, lines, k1, b, t, o1),
        key_effect(b, t, text, lines, k2, c, u, o2),
    ensures
        c == (App { help_scroll: c.help_scroll, ..a }),
        u == s,
        nothing(o1),
        nothing(o2),
{
}

/// Whether a key quits: Control+C, or `q` in the list while not searching
/// and with no checkout panel open, and the help popup closed.
pub open spec fn quits_on(a: App, s: Screens, key: KeyInput) -> bool {
    &&& key.key != Key::Char('?')
    &&& !a.show_help
    &&& ((key.key == Key::Char('c') && key.ctrl) || (key.key == Key::Char('q') && a.view == AppView::MrList
        && !a.local_search_active && s.checkout is None))
}

/// The program quits on a key exactly when `quits_on` holds, and quitting
/// changes nothing.
pub proof fn lemma_quit_rule(
    a: App,
    s: Screens,
    text: SettingsText,
    lines: Seq<String>,
    key: KeyInput,
    b: App,
    t: Screens,
    out: KeyOutcome,
)
    requires
        key_effect(a, s, text, lines, key, b, t, out),
    ensures
        out is Quit <==> quits_on(a, s, key),
        out is Quit ==> b == a && t == s,
{
}

/// A quit key never asks more of the state than well-formed settings
/// fields: `route_key` can always be called with it.
pub proof fn lemma_quit_keys_fit(a: App, s: Screens, key: KeyInput)
    requires
        s.settings.wf(),
        quits_on(a, s, key),
    ensures
        key_ok(a, s, key),
{
}

/// While the help popup shows, every key but `?` goes to it alone: the
/// arrows and page keys scroll it, any other key (Control+C and `q` too)
/// closes it, and no screen, panel or command sees the key.
pub proof fn lemma_help_takes_keys(
    a: App,
    s: Screens,
    text: SettingsText,
    lines: Seq<String>,
    key: KeyInput,
    b: App,
    t: Screens,
    out: KeyOutcome,
)
    requires
        a.show_help,
        key.key != Key::Char('?'),
        key_effect(a, s, text, lines, key, b, t, out),
    ensures
        help_key_effect(a, key, b),
        b == (App { help_scroll: b.help_scroll, show_help: b.show_help, ..a }),
        t == s,
        nothing(out),
{
}

} // verus!
