use vmux_desktop::key_input::{clear_input_frame, press, release, ShortcutApp};
use vmux_desktop::keys::KeyCode;
use vmux_desktop::native_keyboard::{NativeKeyMonitor, NativeModifierFlags};
use vmux_desktop::shortcut::{
    combo, decide, is_bare_escape, is_command_bar_dismiss_combo, super_combo, KeyAction,
    Shortcut, ShortcutMap,
};
use vmux_desktop::shortcut_settings::{
    build_shortcut_map, KeyComboDef, ResolvedKey, ShortcutDef, ShortcutEntry, ShortcutSettings,
};

const MS: u64 = 1_000_000;

fn leader() -> vmux_desktop::shortcut::KeyCombo {
    combo(KeyCode::KeyG, true)
}

fn defaults() -> Vec<(Shortcut, String)> {
    let mut v = Vec::new();
    for (k, id) in [
        (KeyCode::KeyH, "pane.select_left"),
        (KeyCode::KeyL, "pane.select_right"),
        (KeyCode::KeyJ, "pane.select_down"),
        (KeyCode::KeyK, "pane.select_up"),
        (KeyCode::KeyS, "space.open"),
    ] {
        v.push((Shortcut::Chord(leader(), combo(k, false)), id.to_string()));
    }
    v.push((
        Shortcut::Direct(super_combo(KeyCode::KeyK)),
        "bar.open_command_bar".to_string(),
    ));
    v.push((
        Shortcut::Direct(super_combo(KeyCode::KeyL)),
        "bar.open_page_in_command_bar".to_string(),
    ));
    v.push((
        Shortcut::Direct(super_combo(KeyCode::Slash)),
        "bar.open_path_bar".to_string(),
    ));
    v
}

fn map() -> ShortcutMap {
    ShortcutMap {
        bindings: defaults(),
        chord_timeout_ms: 1000,
    }
}

fn plain(key: KeyCode, implicit_shift: bool) -> KeyComboDef {
    KeyComboDef {
        key: Some(ResolvedKey { key, implicit_shift }),
        ctrl: false,
        shift: false,
        alt: false,
        super_key: false,
    }
}

fn settings_with_leader(key: KeyCode) -> ShortcutSettings {
    let mut s = ShortcutSettings::default();
    s.leader = KeyComboDef {
        key: Some(ResolvedKey {
            key,
            implicit_shift: false,
        }),
        ctrl: true,
        shift: false,
        alt: false,
        super_key: false,
    };
    s
}

fn with_leader_bindings(mut s: ShortcutSettings, items: &[(&str, KeyCode, bool)]) -> ShortcutSettings {
    for (command, key, shift) in items {
        s.bindings.push(ShortcutEntry {
            command: command.to_string(),
            binding: ShortcutDef::Leader(plain(*key, *shift)),
        });
    }
    s
}

fn app() -> ShortcutApp {
    ShortcutApp::new(build_shortcut_map(defaults(), None))
}

fn app_with(settings: &ShortcutSettings) -> ShortcutApp {
    ShortcutApp::new(build_shortcut_map(defaults(), Some(settings)))
}

fn leader_then(app: &mut ShortcutApp, lead: KeyCode, second: &[KeyCode]) {
    press(app, KeyCode::ControlLeft);
    press(app, lead);
    app.update(10 * MS);
    clear_input_frame(app);
    release(app, lead);
    release(app, KeyCode::ControlLeft);
    app.update(20 * MS);
    clear_input_frame(app);
    for k in second {
        press(app, *k);
    }
    app.update(30 * MS);
}

// ---- native key monitor decisions ----

#[test]
fn leader_then_h_consumes_and_emits_select_left() {
    let map = map();
    let mut pending = None;
    let prefix = decide(&map, &mut pending, combo(KeyCode::KeyG, true), 0);
    assert_eq!(prefix, KeyAction::Consume(None));
    assert!(pending.is_some());
    let second = decide(&map, &mut pending, combo(KeyCode::KeyH, false), 0);
    assert_eq!(second, KeyAction::Consume(Some("pane.select_left".to_string())));
    assert!(pending.is_none());
}

#[test]
fn bare_escape_detected_only_without_modifiers() {
    assert!(is_bare_escape(&combo(KeyCode::Escape, false)));
    assert!(!is_bare_escape(&combo(KeyCode::Escape, true)));
    assert!(!is_bare_escape(&super_combo(KeyCode::Escape)));
    assert!(!is_bare_escape(&combo(KeyCode::KeyH, false)));
}

#[test]
fn command_bar_dismiss_accepts_escape_and_ctrl_c() {
    assert!(is_command_bar_dismiss_combo(&combo(KeyCode::Escape, false)));
    assert!(is_command_bar_dismiss_combo(&combo(KeyCode::KeyC, true)));
    assert!(!is_command_bar_dismiss_combo(&combo(KeyCode::KeyC, false)));
    assert!(!is_command_bar_dismiss_combo(&super_combo(KeyCode::KeyC)));
}

#[test]
fn bare_key_without_pending_passes_through() {
    let map = map();
    let mut pending = None;
    let action = decide(&map, &mut pending, combo(KeyCode::KeyH, false), 0);
    assert_eq!(action, KeyAction::PassThrough);
}

#[test]
fn consumed_shortcut_wakes_and_queues_command() {
    let mut monitor = NativeKeyMonitor::new();
    let d = monitor.handle_key_action(KeyAction::Consume(Some("pane.select_left".to_string())));
    assert!(d.consume);
    assert!(d.wake);
    assert_eq!(monitor.drain_commands(), vec!["pane.select_left".to_string()]);
    let passed = monitor.handle_key_action(KeyAction::PassThrough);
    assert!(!passed.consume && !passed.wake);
}

#[test]
fn expired_prefix_does_not_consume_second_key() {
    let map = map();
    let mut pending = Some((combo(KeyCode::KeyG, true), 0));
    let action = decide(&map, &mut pending, combo(KeyCode::KeyH, false), 2000 * MS);
    assert_eq!(action, KeyAction::PassThrough);
    assert!(pending.is_none());
}

#[test]
fn native_command_bar_shortcuts_are_consumed_before_cef() {
    let map = map();
    let mut pending = None;
    for (pressed, expected) in [
        (super_combo(KeyCode::KeyK), "bar.open_command_bar"),
        (super_combo(KeyCode::KeyL), "bar.open_page_in_command_bar"),
        (super_combo(KeyCode::Slash), "bar.open_path_bar"),
    ] {
        let action = decide(&map, &mut pending, pressed, 0);
        assert_eq!(action, KeyAction::Consume(Some(expected.to_string())));
    }
}

#[test]
fn native_monitor_translates_virtual_keys_and_consumes_leader_chord() {
    let mut monitor = NativeKeyMonitor::new();
    monitor.set_shortcut_map(map());
    let ctrl = NativeModifierFlags { control: true, shift: false, option: false, command: false };
    let none = NativeModifierFlags { control: false, shift: false, option: false, command: false };
    // 0x05 is G and 0x04 is H on the macOS keyboard.
    let first = monitor.on_key_down(0x05, ctrl, 0);
    assert!(first.consume);
    let second = monitor.on_key_down(0x04, none, MS);
    assert!(second.consume && second.wake);
    assert_eq!(monitor.drain_commands(), vec!["pane.select_left".to_string()]);
    // An unknown virtual key is left alone.
    let other = monitor.on_key_down(0x7F, none, 2 * MS);
    assert!(!other.consume);
}

#[test]
fn escape_requests_fullscreen_exit_when_enabled() {
    let mut monitor = NativeKeyMonitor::new();
    monitor.set_shortcut_map(map());
    monitor.set_escape_exits_fullscreen(true);
    let none = NativeModifierFlags { control: false, shift: false, option: false, command: false };
    // 0x35 is Escape.
    monitor.on_key_down(0x35, none, 0);
    assert!(monitor.take_exit_fullscreen_request());
    assert!(!monitor.take_exit_fullscreen_request());
}

// ---- in-app key handler ----

#[test]
fn leader_h_emits_select_pane_left() {
    let mut app = app();
    leader_then(&mut app, KeyCode::KeyG, &[KeyCode::KeyH]);
    assert_eq!(app.issued, vec!["pane.select_left".to_string()]);
}

#[test]
fn leader_l_emits_select_pane_right() {
    let mut app = app();
    leader_then(&mut app, KeyCode::KeyG, &[KeyCode::KeyL]);
    assert_eq!(app.issued, vec!["pane.select_right".to_string()]);
}

#[test]
fn leader_j_emits_select_pane_down() {
    let mut app = app();
    leader_then(&mut app, KeyCode::KeyG, &[KeyCode::KeyJ]);
    assert_eq!(app.issued, vec!["pane.select_down".to_string()]);
}

#[test]
fn leader_k_emits_select_pane_up() {
    let mut app = app();
    leader_then(&mut app, KeyCode::KeyG, &[KeyCode::KeyK]);
    assert_eq!(app.issued, vec!["pane.select_up".to_string()]);
}

#[test]
fn leader_s_emits_space_open_command() {
    let mut app = app();
    leader_then(&mut app, KeyCode::KeyG, &[KeyCode::KeyS]);
    assert_eq!(app.issued, vec!["space.open".to_string()]);
}

#[test]
fn leader_chord_emits_when_prefix_and_key_arrive_in_same_frame() {
    let mut app = app();
    press(&mut app, KeyCode::ControlLeft);
    press(&mut app, KeyCode::KeyG);
    press(&mut app, KeyCode::KeyS);
    app.update(10 * MS);
    assert_eq!(app.issued, vec!["space.open".to_string()]);
}

#[test]
fn leader_chord_emits_when_prefix_is_released_before_same_frame_update() {
    let mut app = app();
    press(&mut app, KeyCode::ControlLeft);
    press(&mut app, KeyCode::KeyG);
    release(&mut app, KeyCode::KeyG);
    release(&mut app, KeyCode::ControlLeft);
    press(&mut app, KeyCode::KeyS);
    app.update(10 * MS);
    assert_eq!(app.issued, vec!["space.open".to_string()]);
}

#[test]
fn configured_leader_s_survives_prefix_release_frame() {
    let mut app = app_with(&settings_with_leader(KeyCode::KeyB));
    leader_then(&mut app, KeyCode::KeyB, &[KeyCode::KeyS]);
    assert_eq!(app.issued, vec!["space.open".to_string()]);
}

#[test]
fn configured_split_v_legacy_binding_emits_right_split() {
    let s = with_leader_bindings(
        settings_with_leader(KeyCode::KeyB),
        &[("split_v", KeyCode::Digit5, true), ("split_h", KeyCode::Quote, true)],
    );
    let mut app = app_with(&s);
    leader_then(&mut app, KeyCode::KeyB, &[KeyCode::ShiftLeft, KeyCode::Digit5]);
    assert_eq!(app.issued, vec!["split_v".to_string()]);
}

#[test]
fn configured_split_h_legacy_binding_emits_bottom_split() {
    let s = with_leader_bindings(
        settings_with_leader(KeyCode::KeyB),
        &[("split_v", KeyCode::Digit5, true), ("split_h", KeyCode::Quote, true)],
    );
    let mut app = app_with(&s);
    leader_then(&mut app, KeyCode::KeyB, &[KeyCode::ShiftLeft, KeyCode::Quote]);
    assert_eq!(app.issued, vec!["split_h".to_string()]);
}

#[test]
fn configured_legacy_leader_x_emits_stack_close() {
    let s = with_leader_bindings(
        settings_with_leader(KeyCode::KeyB),
        &[
            ("split_v", KeyCode::Digit5, true),
            ("split_h", KeyCode::Quote, true),
            ("toggle_pane", KeyCode::KeyO, false),
            ("close_pane", KeyCode::KeyX, false),
        ],
    );
    let mut app = app_with(&s);
    leader_then(&mut app, KeyCode::KeyB, &[KeyCode::KeyX]);
    assert_eq!(app.issued, vec!["close_pane".to_string()]);
}

fn tab_settings() -> ShortcutSettings {
    with_leader_bindings(
        settings_with_leader(KeyCode::KeyB),
        &[
            ("open_in_new_tab", KeyCode::KeyC, false),
            ("next_tab", KeyCode::KeyN, false),
            ("prev_tab", KeyCode::KeyP, false),
        ],
    )
}

#[test]
fn leader_n_emits_tab_next() {
    let mut app = app_with(&tab_settings());
    leader_then(&mut app, KeyCode::KeyB, &[KeyCode::KeyN]);
    assert_eq!(app.issued, vec!["next_tab".to_string()]);
}

#[test]
fn leader_p_emits_tab_previous() {
    let mut app = app_with(&tab_settings());
    leader_then(&mut app, KeyCode::KeyB, &[KeyCode::KeyP]);
    assert_eq!(app.issued, vec!["prev_tab".to_string()]);
}

#[test]
fn leader_c_emits_open_in_new_tab() {
    let mut app = app_with(&tab_settings());
    leader_then(&mut app, KeyCode::KeyB, &[KeyCode::KeyC]);
    assert_eq!(app.issued, vec!["open_in_new_tab".to_string()]);
}

#[test]
fn configured_leader_replaces_default_leader() {
    let mut app = app_with(&settings_with_leader(KeyCode::KeyB));
    leader_then(&mut app, KeyCode::KeyG, &[KeyCode::KeyS]);
    assert!(app.issued.is_empty());
}

#[test]
fn chord_second_half_after_timeout_issues_nothing() {
    let mut app = app();
    press(&mut app, KeyCode::ControlLeft);
    press(&mut app, KeyCode::KeyG);
    app.update(0);
    clear_input_frame(&mut app);
    release(&mut app, KeyCode::KeyG);
    release(&mut app, KeyCode::ControlLeft);
    press(&mut app, KeyCode::KeyH);
    app.update(1500 * MS);
    assert!(app.issued.is_empty());
}

#[test]
fn release_drops_every_entry_of_a_key() {
    let mut kb = vmux_desktop::key_input::KeyboardInput::new();
    kb.pressed = vec![KeyCode::KeyA, KeyCode::KeyB, KeyCode::KeyA];
    kb.release(KeyCode::KeyA);
    assert_eq!(kb.pressed, vec![KeyCode::KeyB]);
    assert_eq!(kb.just_released, vec![KeyCode::KeyA]);
    kb.release(KeyCode::KeyC);
    assert_eq!(kb.pressed, vec![KeyCode::KeyB]);
    assert_eq!(kb.just_released, vec![KeyCode::KeyA]);
}
