//! When the frame loop wakes and how often embedded browsers are woken.
use vstd::prelude::*;

verus! {

/// Whether the command bar wakes the frame loop: while its reveal is
/// deferred, or while it is being revealed.
pub fn command_bar_should_wake(deferred: bool, active_reveal: bool) -> (r: bool)
    ensures
        r == (deferred || active_reveal),
{
    deferred || active_reveal
}

/// How the frame loop waits for events: it sleeps up to `wait_ms` and wakes
/// early on the kinds of events marked.
#[derive(Clone, Copy, Debug, PartialEq, Eq, Structural)]
pub struct ReactiveMode {
    pub wait_ms: u64,
    pub react_to_device_events: bool,
    pub react_to_user_events: bool,
    pub react_to_window_events: bool,
}

/// The low-power reactive mode: waking on user and window events only, and
/// otherwise after `wait_ms`.
pub open spec fn low_power(wait_ms: u64) -> ReactiveMode {
    ReactiveMode {
        wait_ms,
        react_to_device_events: false,
        react_to_user_events: true,
        react_to_window_events: true,
    }
}

/// The frame loop's modes while it has focus and while it does not.
#[derive(Clone, Copy, Debug, PartialEq, Eq, Structural)]
pub struct LoopSettings {
    pub focused_mode: ReactiveMode,
    pub unfocused_mode: ReactiveMode,
}

/// The frame loop while every window is hidden: low power with a minute
/// between wakes, focused or not, so a stale focus flag cannot keep it busy.
pub fn hidden_winit_settings() -> (s: LoopSettings)
    ensures
        s.focused_mode == low_power(60_000),
        s.unfocused_mode == low_power(60_000),
{
    let m = ReactiveMode {
        wait_ms: 60_000,
        react_to_device_events: false,
        react_to_user_events: true,
        react_to_window_events: true,
    };
    LoopSettings { focused_mode: m, unfocused_mode: m }
}

/// How long embedded browsers wait between wakes, in nanoseconds: the
/// display's frame interval while the app is not suspended and its window
/// is visible and focused, one second otherwise.
pub fn cef_wake_interval(suspended: bool, visible: bool, focused: bool, display_interval_ns: u64) -> (ns:
    u64)
    ensures
        ns == (if !suspended && visible && focused {
            display_interval_ns
        } else {
            1_000_000_000
        }),
{
    if !suspended && visible && focused {
        display_interval_ns
    } else {
        1_000_000_000
    }
}

/// The frame loop while a window is shown. Focused, it waits up to a second
/// (about 16 ms during a live resize, pacing the loop to some 60 frames a
/// second), wakes on user events, on device events only in player mode, and
/// on window events unless a live resize paces it or the pointer hovers the
/// layout. Unfocused, it is low power with a second between wakes.
pub fn foreground_winit_settings(player_mode: bool, live_resize: bool, layout_hover: bool) -> (s:
    LoopSettings)
    ensures
        s.focused_mode == (ReactiveMode {
            wait_ms: if live_resize {
                16
            } else {
                1000
            },
            react_to_device_events: player_mode,
            react_to_user_events: true,
            react_to_window_events: !live_resize && !layout_hover,
        }),
        s.unfocused_mode == low_power(1000),
{
    LoopSettings {
        focused_mode: ReactiveMode {
            wait_ms: if live_resize {
                16
            } else {
                1000
            },
            react_to_device_events: player_mode,
            react_to_user_events: true,
            react_to_window_events: !live_resize && !layout_hover,
        },
        unfocused_mode: ReactiveMode {
            wait_ms: 1000,
            react_to_device_events: false,
            react_to_user_events: true,
            react_to_window_events: true,
        },
    }
}

/// Whether the pointer counts as inside a windowed page after an event: a
/// scroll keeps what was before, so that scrolling does not take the page's
/// pointer away; any other event goes by where it happened.
pub fn windowed_pointer_inside_after_event(is_scroll: bool, event_inside: bool, was_inside: bool) -> (r:
    bool)
    ensures
        r == if is_scroll {
            was_inside
        } else {
            event_inside
        },
{
    if is_scroll {
        was_inside
    } else {
        event_inside
    }
}

/// Whether a native scroll wakes the frame loop: over the layout, or over
/// content that is not a windowed page (a windowed page scrolls by itself).
pub fn native_scroll_should_wake(over_layout: bool, windowed_content: bool) -> (r: bool)
    ensures
        r == (over_layout || !windowed_content),
{
    over_layout || !windowed_content
}

} // verus!
