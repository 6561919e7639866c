use vmux_desktop::copy_mode::CopyModeKey;
use vmux_desktop::keys::{KeyCode, LogicalKey};
use vmux_desktop::terminal_input::LocalCopyModeState;
use vmux_desktop::terminal_keys::{
    bracketed_paste, handle_terminal_keys, TermKeyEvent, TermKeyMods, TerminalKeyOutput,
};

fn mods() -> TermKeyMods {
    TermKeyMods { ctrl: false, alt: false, shift: false, super_key: false }
}

fn press(code: KeyCode, key: LogicalKey) -> TermKeyEvent {
    TermKeyEvent { pressed: true, repeat: false, key_code: code, logical_key: key }
}

fn ch(s: &str) -> LogicalKey {
    LogicalKey::Character(s.to_string())
}

#[test]
fn typed_keys_go_to_the_first_target_only() {
    let mut local = LocalCopyModeState::new();
    let out = handle_terminal_keys(
        &mut local,
        &vec![1, 2],
        true,
        false,
        false,
        mods(),
        &vec![KeyCode::KeyA],
        &vec![press(KeyCode::KeyA, ch("a"))],
    );
    assert_eq!(
        out,
        vec![TerminalKeyOutput::Input { process_id: 1, data: b"a".to_vec() }]
    );
}

#[test]
fn nothing_is_sent_without_target_service_or_during_chord() {
    let mut local = LocalCopyModeState::new();
    let ev = vec![press(KeyCode::KeyA, ch("a"))];
    let jp = vec![KeyCode::KeyA];
    assert!(handle_terminal_keys(&mut local, &vec![], true, false, false, mods(), &jp, &ev).is_empty());
    assert!(handle_terminal_keys(&mut local, &vec![1], false, false, false, mods(), &jp, &ev).is_empty());
    assert!(handle_terminal_keys(&mut local, &vec![1], true, true, false, mods(), &jp, &ev).is_empty());
}

#[test]
fn releases_and_repeated_non_character_keys_are_skipped() {
    let mut local = LocalCopyModeState::new();
    let mut up = press(KeyCode::KeyA, ch("a"));
    up.pressed = false;
    let enter = press(KeyCode::Enter, LogicalKey::Enter);
    let out = handle_terminal_keys(
        &mut local,
        &vec![1],
        true,
        false,
        false,
        mods(),
        &vec![KeyCode::Enter],
        &vec![up, enter.clone(), enter],
    );
    assert_eq!(out, vec![TerminalKeyOutput::Input { process_id: 1, data: b"\r".to_vec() }]);
    // A non-character key that did not go down this frame is not sent.
    let out = handle_terminal_keys(
        &mut local,
        &vec![1],
        true,
        false,
        false,
        mods(),
        &vec![],
        &vec![press(KeyCode::Enter, LogicalKey::Enter)],
    );
    assert!(out.is_empty());
}

#[test]
fn super_v_pastes_and_super_c_asks_for_selection() {
    let mut local = LocalCopyModeState::new();
    let sup = TermKeyMods { super_key: true, ..mods() };
    let out = handle_terminal_keys(
        &mut local,
        &vec![4, 5],
        true,
        false,
        false,
        sup,
        &vec![KeyCode::KeyV, KeyCode::KeyC, KeyCode::KeyX],
        &vec![press(KeyCode::KeyV, ch("v")), press(KeyCode::KeyC, ch("c")), press(KeyCode::KeyX, ch("x"))],
    );
    assert_eq!(out, vec![TerminalKeyOutput::Paste { process_id: 4 }, TerminalKeyOutput::RequestSelection { process_id: 4 }]);
    assert_eq!(bracketed_paste(b"hi"), b"\x1b[200~hi\x1b[201~".to_vec());
}

#[test]
fn shift_selection_keys_are_swallowed() {
    let mut local = LocalCopyModeState::new();
    let shift = TermKeyMods { shift: true, ..mods() };
    let out = handle_terminal_keys(
        &mut local,
        &vec![1],
        true,
        false,
        false,
        shift,
        &vec![KeyCode::ArrowLeft],
        &vec![press(KeyCode::ArrowLeft, LogicalKey::ArrowLeft)],
    );
    assert!(out.is_empty());
}

#[test]
fn copy_mode_swallows_keys_and_exit_clears_latch() {
    let mut local = LocalCopyModeState::new();
    local.set_local_copy_mode(9, true);
    let out = handle_terminal_keys(
        &mut local,
        &vec![9],
        true,
        false,
        true,
        mods(),
        &vec![KeyCode::Digit2, KeyCode::KeyJ],
        &vec![press(KeyCode::Digit2, ch("2")), press(KeyCode::KeyJ, ch("j"))],
    );
    assert_eq!(
        out,
        vec![
            TerminalKeyOutput::CopyModeKey { process_id: 9, key: CopyModeKey::Down },
            TerminalKeyOutput::CopyModeKey { process_id: 9, key: CopyModeKey::Down },
        ]
    );
    assert!(local.active.contains(&9));
    let out = handle_terminal_keys(
        &mut local,
        &vec![9],
        true,
        false,
        true,
        mods(),
        &vec![KeyCode::KeyQ],
        &vec![press(KeyCode::KeyQ, ch("q"))],
    );
    assert_eq!(out, vec![TerminalKeyOutput::CopyModeKey { process_id: 9, key: CopyModeKey::Exit }]);
    assert!(!local.active.contains(&9));
    assert!(local.input_state_entry(9).is_none());
}

#[test]
fn copy_mode_pending_key_carries_over_frames() {
    let mut local = LocalCopyModeState::new();
    let out = handle_terminal_keys(
        &mut local, &vec![9], true, false, true, mods(), &vec![KeyCode::KeyG], &vec![press(KeyCode::KeyG, ch("g"))],
    );
    assert!(out.is_empty());
    assert!(local.input_state_entry(9).unwrap().pending_key.is_some());
    let out = handle_terminal_keys(
        &mut local, &vec![9], true, false, true, mods(), &vec![KeyCode::KeyG], &vec![press(KeyCode::KeyG, ch("g"))],
    );
    assert_eq!(out, vec![TerminalKeyOutput::CopyModeKey { process_id: 9, key: CopyModeKey::Top }]);
}
