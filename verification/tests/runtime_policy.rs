use vmux_desktop::runtime_policy::{
    cef_wake_interval, command_bar_should_wake, foreground_winit_settings, hidden_winit_settings,
    native_scroll_should_wake, windowed_pointer_inside_after_event, ReactiveMode,
};

const MS: u64 = 1_000_000;

#[test]
fn command_bar_wake_covers_defer_and_active_reveal() {
    assert!(command_bar_should_wake(true, false));
    assert!(command_bar_should_wake(false, true));
    assert!(command_bar_should_wake(true, true));
    assert!(!command_bar_should_wake(false, false));
}

#[test]
fn hidden_power_mode_ignores_stale_window_focus() {
    let settings = hidden_winit_settings();
    assert_eq!(settings.focused_mode.wait_ms, 60_000);
    assert_eq!(settings.unfocused_mode.wait_ms, 60_000);
    assert_eq!(settings.focused_mode, settings.unfocused_mode);
    assert!(!settings.focused_mode.react_to_device_events);
    assert!(settings.focused_mode.react_to_user_events);
    assert!(settings.focused_mode.react_to_window_events);
}

#[test]
fn cef_wake_policy_matches_display_refresh() {
    assert_eq!(cef_wake_interval(false, true, true, 7 * MS), 7 * MS);
    assert_eq!(cef_wake_interval(false, true, true, 16_666_666), 16_666_666);
}

#[test]
fn cef_wake_policy_throttles_visible_unfocused() {
    assert_eq!(cef_wake_interval(false, true, false, 7 * MS), 1_000 * MS);
}

#[test]
fn cef_wake_policy_throttles_hidden() {
    assert_eq!(cef_wake_interval(false, false, true, 7 * MS), 1_000 * MS);
    assert_eq!(cef_wake_interval(true, true, true, 7 * MS), 1_000 * MS);
}

#[test]
fn foreground_power_mode_is_reactive_when_focused() {
    let settings = foreground_winit_settings(false, false, false);
    let focused = settings.focused_mode;
    assert_eq!(focused.wait_ms, 1000);
    assert!(focused.react_to_user_events);
    assert_eq!(
        settings.unfocused_mode,
        ReactiveMode {
            wait_ms: 1000,
            react_to_device_events: false,
            react_to_user_events: true,
            react_to_window_events: true,
        }
    );
    // At rest, window-event wakes are on; device-event wakes stay off in browse mode.
    assert!(!focused.react_to_device_events);
    assert!(focused.react_to_window_events);

    // During a live resize, the loop is paced by a ~16ms timer (window-event reaction off).
    let resize = foreground_winit_settings(false, true, false).focused_mode;
    assert_eq!(resize.wait_ms, 16);
    assert!(!resize.react_to_window_events);

    let player = foreground_winit_settings(true, false, false).focused_mode;
    assert!(player.react_to_device_events);
    assert!(player.react_to_window_events);

    let layout_hover = foreground_winit_settings(false, false, true).focused_mode;
    assert!(!layout_hover.react_to_window_events);
}

#[test]
fn scroll_preserves_windowed_page_pointer_ownership() {
    assert!(windowed_pointer_inside_after_event(false, true, false));
    assert!(!windowed_pointer_inside_after_event(false, false, true));
    assert!(!windowed_pointer_inside_after_event(true, true, false));
    assert!(windowed_pointer_inside_after_event(true, false, true));
}

#[test]
fn native_scroll_wakes_bevy_only_for_layout_or_non_windowed_content() {
    assert!(!native_scroll_should_wake(false, true));
    assert!(native_scroll_should_wake(true, true));
    assert!(native_scroll_should_wake(false, false));
}
