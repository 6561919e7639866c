//! The application menu: routing its items, keeping its Close and mode
//! items in step, and telling a stray window-close request from a real one.
use crate::decimal::{decimal_chars, push_decimal_str};
use crate::text::{chars_of, range_starts_with, starts_with, str_eq};
use vstd::prelude::*;

verus! {

/// A close request this soon after a menu command, a tab close or a stack
/// close is taken to come from the same key press, in nanoseconds.
pub const WINDOW_CLOSE_SUPPRESSION_NS: u64 = 300_000_000;

/// A close request this soon after a native page opened is taken to come
/// from the page's own handling of the key, in nanoseconds.
pub const NATIVE_PAGE_OPEN_SUPPRESSION_NS: u64 = 1_500_000_000;

/// Whether the event at `at` happened less than `window` before `now`; a
/// clock that went back counts as no time.
pub open spec fn within(at: Option<u64>, now: u64, window: u64) -> bool {
    match at {
        Some(t) => (if now >= t {
            now - t
        } else {
            0
        }) < window,
        None => false,
    }
}

fn within_exec(at: Option<u64>, now: u64, window: u64) -> (r: bool)
    ensures
        r == within(at, now, window),
{
    match at {
        Some(t) => now.saturating_sub(t) < window,
        None => false,
    }
}

/// The recent events a window-close request is weighed against.
#[derive(Clone, Copy, Debug, PartialEq, Eq, Structural)]
pub struct RecentCommands {
    pub menu_command: Option<u64>,
    pub tab_close: Option<u64>,
    pub stack_close: Option<u64>,
    pub native_page_open: Option<u64>,
}

/// A window-close request is ignored right after a menu command, a tab
/// close or a stack close, and for longer after a native page opened; any
/// other hides the window.
pub open spec fn spec_close_suppressed(r: RecentCommands, now: u64) -> bool {
    within(r.menu_command, now, WINDOW_CLOSE_SUPPRESSION_NS) || within(
        r.stack_close,
        now,
        WINDOW_CLOSE_SUPPRESSION_NS,
    ) || within(r.tab_close, now, WINDOW_CLOSE_SUPPRESSION_NS) || within(
        r.native_page_open,
        now,
        NATIVE_PAGE_OPEN_SUPPRESSION_NS,
    )
}

/// Whether a window-close request at `now` is ignored (see `spec_close_suppressed`).
pub fn close_request_suppressed(r: &RecentCommands, now: u64) -> (s: bool)
    ensures
        s == spec_close_suppressed(*r, now),
{
    within_exec(r.menu_command, now, WINDOW_CLOSE_SUPPRESSION_NS) || within_exec(
        r.stack_close,
        now,
        WINDOW_CLOSE_SUPPRESSION_NS,
    ) || within_exec(r.tab_close, now, WINDOW_CLOSE_SUPPRESSION_NS) || within_exec(
        r.native_page_open,
        now,
        NATIVE_PAGE_OPEN_SUPPRESSION_NS,
    )
}

/// Whether opening `url` in place opens a native page: one under `vmux://`.
pub fn opens_native_page(url: Option<&str>) -> (r: bool)
    ensures
        r == match url {
            Some(u) => starts_with(u@, "vmux://"@),
            None => false,
        },
{
    match url {
        Some(u) => {
            let cs = chars_of(u);
            let prefix = chars_of("vmux://");
            let r = range_starts_with(&cs, 0, cs.len(), &prefix);
            assert(cs@.subrange(0, cs@.len() as int) =~= u@);
            r
        },
        None => false,
    }
}

/// Where a menu item's click goes.
#[derive(Clone, Debug, PartialEq, Eq)]
pub enum MenuRoute {
    /// The Quit item hides the windows instead of exiting.
    HideAllWindows,
    /// An item that names a command issues it.
    Command(String),
    /// Any other item belongs to the tray.
    Tray(String),
}

/// Where the click on the item `id` goes: `app_quit` hides the windows; an
/// id that names a command (`is_command`) issues it; any other goes to the tray.
pub fn route_menu_event(id: String, is_command: bool) -> (r: MenuRoute)
    ensures
        r == (if id@ == "app_quit"@ {
            MenuRoute::HideAllWindows
        } else if is_command {
            MenuRoute::Command(id)
        } else {
            MenuRoute::Tray(id)
        }),
{
    if str_eq(id.as_str(), "app_quit") {
        MenuRoute::HideAllWindows
    } else if is_command {
        MenuRoute::Command(id)
    } else {
        MenuRoute::Tray(id)
    }
}

/// Keeps the Close item enabled exactly while a window is visible: returns
/// the state to set when it changes, and nothing when it already matches.
pub fn sync_close_menu_item(enabled: &mut bool, any_visible: bool) -> (set: Option<bool>)
    ensures
        *final(enabled) == any_visible,
        set == (if *old(enabled) == any_visible {
            None
        } else {
            Some(any_visible)
        }),
{
    if *enabled == any_visible {
        return None;
    }
    *enabled = any_visible;
    Some(any_visible)
}

/// The shell's interaction modes.
#[derive(Clone, Copy, Debug, PartialEq, Eq, Structural)]
pub enum InteractionMode {
    User,
    Player,
}

/// Whether the User and the Player menu items are enabled: each is disabled
/// while its mode is the current one.
pub fn interactive_mode_items_enabled(mode: InteractionMode) -> (r: (bool, bool))
    ensures
        r == (mode != InteractionMode::User, mode != InteractionMode::Player),
{
    (mode != InteractionMode::User, mode != InteractionMode::Player)
}

/// Where keyboard focus is headed: the host window itself (a terminal), a
/// windowed page, or nothing the shell manages.
#[derive(Clone, Copy, Debug, PartialEq, Eq, Structural)]
pub enum HostFocusIntent {
    WinitHost,
    Windowed(u64),
    Unmanaged,
}

/// Whether the Edit menu's items are enabled: not while a terminal holds the
/// focus, so that copy and paste reach the terminal's own handler.
pub fn edit_menu_items_enabled(intent: HostFocusIntent) -> (r: bool)
    ensures
        r == !(intent is WinitHost),
{
    match intent {
        HostFocusIntent::WinitHost => false,
        _ => true,
    }
}

/// The question asked before quitting with `count` terminals running.
pub open spec fn spec_quit_question(count: nat) -> Seq<char> {
    if count == 1 {
        "A terminal is still running. Quit anyway?"@
    } else {
        decimal_chars(count) + " terminals are still running. Quit anyway?"@
    }
}

/// The question asked before quitting with `count` terminals running (see
/// `spec_quit_question`).
pub fn quit_question(count: u64) -> (q: String)
    ensures
        q@ == spec_quit_question(count as nat),
{
    if count == 1 {
        "A terminal is still running. Quit anyway?".to_owned()
    } else {
        let mut q = String::new();
        push_decimal_str(&mut q, count);
        q.append(" terminals are still running. Quit anyway?");
        q
    }
}

} // verus!
