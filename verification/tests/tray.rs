use vmux_desktop::tray::{
    classify_tray_event, icon_as_template, sync_tray_menu_state, toggle_label,
    toggle_lifecycle_event, tray_entry_label, tray_icon_recording_rgba, tray_icon_rgba,
    tray_menu_entries, LifecycleRequest, RecordingControl, TrayMenuEntry, TrayMenuIds, TrayRequest,
};

#[test]
fn tray_module_not_a_placeholder() {
    let entries = tray_menu_entries(false);
    assert_eq!(
        entries,
        vec![TrayMenuEntry::Toggle, TrayMenuEntry::Separator, TrayMenuEntry::Quit]
    );
    let labels: Vec<_> = entries.iter().map(|e| tray_entry_label(*e)).collect();
    assert_eq!(labels, vec![Some("Close Window"), None, Some("Quit Vmux")]);
}

#[test]
fn tray_menu_has_recording_controls_when_recording() {
    let entries = tray_menu_entries(true);
    assert_eq!(entries.len(), 7);
    assert_eq!(entries[2], TrayMenuEntry::PauseRecording);
    assert_eq!(tray_entry_label(TrayMenuEntry::FinishRecording), Some("Finish Recording"));
}

#[test]
fn toggle_label_reflects_visibility() {
    assert_eq!(toggle_label(true), "Close Window");
    assert_eq!(toggle_label(false), "Open Window");
}

#[test]
fn toggle_event_routes_by_visibility() {
    assert_eq!(toggle_lifecycle_event(true), LifecycleRequest::HideAllWindows);
    assert_eq!(toggle_lifecycle_event(false), LifecycleRequest::ShowAllWindows);
}

#[test]
fn tray_syncs_toggle_label_with_window_visibility() {
    let mut last = None;
    assert_eq!(sync_tray_menu_state(&mut last, true), Some("Close Window"));
    assert_eq!(last, Some(true));
    assert_eq!(sync_tray_menu_state(&mut last, true), None);
    assert_eq!(sync_tray_menu_state(&mut last, false), Some("Open Window"));
    assert_eq!(last, Some(false));
}

#[test]
fn tray_icon_has_visible_pixels() {
    let rgba = tray_icon_rgba();
    assert_eq!(rgba.len(), 16 * 16 * 4);
    assert!(
        rgba.chunks_exact(4).any(|pixel| pixel[3] != 0),
        "tray icon must not be fully transparent"
    );
}

#[test]
fn recording_icon_is_a_red_dot() {
    let rgba = tray_icon_recording_rgba();
    assert_eq!(rgba.len(), 1024);
    let center = (7 * 16 + 7) * 4;
    assert_eq!(&rgba[center..center + 4], &[224, 38, 38, 255]);
    assert_eq!(rgba[3], 0);
}

#[test]
fn tray_icon_uses_macos_template_mode() {
    assert!(icon_as_template(false));
    assert!(!icon_as_template(true));
}

#[test]
fn tray_events_classified_by_menu_id() {
    let ids = TrayMenuIds { toggle: 1, quit: 2, pause: 3, resume: 4, done: 5 };
    assert_eq!(
        classify_tray_event(1, &ids, true),
        TrayRequest::Lifecycle(LifecycleRequest::HideAllWindows)
    );
    assert_eq!(
        classify_tray_event(1, &ids, false),
        TrayRequest::Lifecycle(LifecycleRequest::ShowAllWindows)
    );
    assert_eq!(classify_tray_event(2, &ids, true), TrayRequest::Lifecycle(LifecycleRequest::QuitVmux));
    assert_eq!(classify_tray_event(5, &ids, true), TrayRequest::Recording(RecordingControl::Done));
    assert_eq!(classify_tray_event(9, &ids, true), TrayRequest::Unhandled);
}
