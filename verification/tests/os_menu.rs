use vmux_desktop::os_menu::{
    close_request_suppressed, edit_menu_items_enabled, interactive_mode_items_enabled,
    opens_native_page, quit_question, route_menu_event, sync_close_menu_item, HostFocusIntent, InteractionMode,
    MenuRoute, RecentCommands, NATIVE_PAGE_OPEN_SUPPRESSION_NS, WINDOW_CLOSE_SUPPRESSION_NS,
};

const MS: u64 = 1_000_000;

fn nothing_recent() -> RecentCommands {
    RecentCommands {
        menu_command: None,
        tab_close: None,
        stack_close: None,
        native_page_open: None,
    }
}

#[test]
fn edit_items_disabled_only_for_terminal_focus() {
    assert!(
        !edit_menu_items_enabled(HostFocusIntent::WinitHost),
        "terminal focus must release ⌘C/⌘V to the terminal's own handler"
    );
    assert!(edit_menu_items_enabled(HostFocusIntent::Windowed(7)));
    assert!(edit_menu_items_enabled(HostFocusIntent::Unmanaged));
}

#[test]
fn quit_menu_event_hides_windows_not_exit() {
    assert_eq!(
        route_menu_event("app_quit".to_string(), false),
        MenuRoute::HideAllWindows
    );
    assert_eq!(
        route_menu_event("app_quit".to_string(), true),
        MenuRoute::HideAllWindows
    );
}

#[test]
fn menu_events_route_commands_and_tray_items() {
    assert_eq!(
        route_menu_event("stack_close".to_string(), true),
        MenuRoute::Command("stack_close".to_string())
    );
    assert_eq!(
        route_menu_event("tray_toggle".to_string(), false),
        MenuRoute::Tray("tray_toggle".to_string())
    );
}

#[test]
fn window_close_request_hides_window_instead_of_despawning() {
    // With nothing recent the request is honoured, which hides the window.
    assert!(!close_request_suppressed(&nothing_recent(), 5_000 * MS));
}

#[test]
fn unsuppressed_window_close_hides_window() {
    let mut r = nothing_recent();
    r.menu_command = Some(0);
    r.tab_close = Some(0);
    r.stack_close = Some(0);
    r.native_page_open = Some(0);
    assert!(!close_request_suppressed(&r, 10_000 * MS));
}

#[test]
fn window_close_hides_without_quit_confirmation() {
    // The decision has only two outcomes, suppress or hide; there is no
    // confirmation step in between.
    assert!(!close_request_suppressed(&nothing_recent(), 0));
    let mut r = nothing_recent();
    r.menu_command = Some(0);
    assert!(close_request_suppressed(&r, 100 * MS));
    assert!(!close_request_suppressed(&r, 400 * MS));
}

#[test]
fn window_close_request_after_tab_close_is_suppressed() {
    let mut r = nothing_recent();
    r.tab_close = Some(1_000 * MS);
    assert!(close_request_suppressed(&r, 1_100 * MS));
    assert!(!close_request_suppressed(&r, 1_000 * MS + WINDOW_CLOSE_SUPPRESSION_NS));
}

#[test]
fn window_close_request_after_stack_close_command_is_suppressed() {
    let mut r = nothing_recent();
    r.stack_close = Some(1_000 * MS);
    assert!(close_request_suppressed(&r, 1_000 * MS));
}

#[test]
fn window_close_request_after_native_page_open_is_suppressed() {
    assert!(opens_native_page(Some("vmux://terminal")));
    assert!(!opens_native_page(Some("https://example.com")));
    assert!(!opens_native_page(None));
    let mut r = nothing_recent();
    r.native_page_open = Some(2_000 * MS);
    assert!(close_request_suppressed(&r, 2_000 * MS));
}

#[test]
fn delayed_window_close_request_after_native_page_open_is_suppressed() {
    let mut r = nothing_recent();
    r.native_page_open = Some(2_000 * MS);
    assert!(close_request_suppressed(&r, 3_000 * MS));
    assert!(!close_request_suppressed(&r, 2_000 * MS + NATIVE_PAGE_OPEN_SUPPRESSION_NS));
}

#[test]
fn close_menu_item_disabled_when_all_windows_hidden() {
    let mut enabled = true;
    assert_eq!(sync_close_menu_item(&mut enabled, true), None);
    assert!(enabled, "a visible window means Close is enabled");
    assert_eq!(sync_close_menu_item(&mut enabled, false), Some(false));
    assert!(!enabled, "all windows hidden means Close is disabled");
    assert_eq!(sync_close_menu_item(&mut enabled, true), Some(true));
    assert!(enabled, "showing a window re-enables Close");
}

#[test]
fn interactive_mode_menu_disables_selected_mode() {
    assert_eq!(interactive_mode_items_enabled(InteractionMode::User), (false, true));
    assert_eq!(interactive_mode_items_enabled(InteractionMode::Player), (true, false));
    let (user, _) = interactive_mode_items_enabled(InteractionMode::Player);
    assert!(user);
    let (_, player) = interactive_mode_items_enabled(InteractionMode::User);
    assert!(player);
}

#[test]
fn quit_question_counts_running_terminals() {
    assert_eq!(quit_question(1), "A terminal is still running. Quit anyway?");
    assert_eq!(quit_question(3), "3 terminals are still running. Quit anyway?");
    assert_eq!(quit_question(0), "0 terminals are still running. Quit anyway?");
}
