use vmux_desktop::copy_mode::{
    copy_mode_key_exits, map_copy_mode_key, map_copy_mode_keys_with_state, CopyModeInputState,
    CopyModeKey as K, CopyModeKeyInput,
};
use vmux_desktop::keys::{KeyCode, LogicalKey};
use vmux_desktop::terminal_input::{logical_key_to_bytes, resolve_terminal_input_targets, LocalCopyModeState};
use vmux_desktop::terminal_mouse::{
    mouse_terminal_actions, scroll_terminal_inputs, sgr_mouse_sequence, MouseSessionState, MouseTerminalAction,
    TermModifiers, TermMouseEvent, TermSelectionRange,
};

const MS: u64 = 1_000_000;

fn ch(s: &str) -> LogicalKey {
    LogicalKey::Character(s.to_string())
}

fn input(s: &str, code: KeyCode) -> CopyModeKeyInput {
    CopyModeKeyInput { key: ch(s), key_code: code, ctrl: false, shift: false }
}

fn shifted(s: &str, code: KeyCode) -> CopyModeKeyInput {
    CopyModeKeyInput { key: ch(s), key_code: code, ctrl: false, shift: true }
}

fn no_mods() -> TermModifiers {
    TermModifiers { shift: false, alt: false, ctrl: false }
}

fn mouse_event(button: u8, col: u16, row: u16, pressed: bool, moving: bool) -> TermMouseEvent {
    TermMouseEvent { button, col, row, modifiers: no_mods(), pressed, moving }
}

#[test]
fn terminal_input_targets_fallback_to_focused_terminal_in_user_mode() {
    let targets = resolve_terminal_input_targets(vec![], false, Some(1), &vec![(1, 7)], true);
    assert_eq!(targets, vec![7]);
}

#[test]
fn terminal_input_targets_do_not_steal_input_from_non_terminal_target() {
    let targets = resolve_terminal_input_targets(vec![], true, Some(1), &vec![(1, 7)], true);
    assert!(targets.is_empty());
}

#[test]
fn terminal_input_targets_prefer_explicit_targets_and_need_user_mode() {
    assert_eq!(resolve_terminal_input_targets(vec![3], true, Some(1), &vec![(1, 7)], false), vec![3]);
    assert!(resolve_terminal_input_targets(vec![], false, Some(1), &vec![(1, 7)], false).is_empty());
    assert_eq!(
        resolve_terminal_input_targets(vec![], false, Some(1), &vec![(1, 7), (2, 8), (1, 9)], true),
        vec![7, 9]
    );
}

#[test]
fn drag_enters_visual_mode_on_first_motion_and_exits_on_release() {
    let mut state = MouseSessionState::new();
    let down = mouse_event(0, 2, 3, true, false);
    assert_eq!(
        mouse_terminal_actions(&mut state, &down, false, 1_000 * MS),
        vec![MouseTerminalAction::SetSelection(None)]
    );
    let drag = mouse_event(0, 5, 3, true, true);
    assert_eq!(
        mouse_terminal_actions(&mut state, &drag, false, 1_010 * MS),
        vec![
            MouseTerminalAction::EnterCopyMode,
            MouseTerminalAction::SetSelection(Some(TermSelectionRange {
                start_col: 2,
                start_row: 3,
                end_col: 5,
                end_row: 3,
                is_block: false,
            })),
        ]
    );
    let release = mouse_event(0, 5, 3, false, false);
    assert_eq!(
        mouse_terminal_actions(&mut state, &release, false, 1_020 * MS),
        vec![MouseTerminalAction::ExitCopyMode]
    );
}

#[test]
fn single_click_never_enters_visual_mode() {
    let mut state = MouseSessionState::new();
    let down = mouse_event(0, 2, 3, true, false);
    assert_eq!(
        mouse_terminal_actions(&mut state, &down, false, 1_000 * MS),
        vec![MouseTerminalAction::SetSelection(None)]
    );
    let release = mouse_event(0, 2, 3, false, false);
    assert_eq!(
        mouse_terminal_actions(&mut state, &release, false, 1_020 * MS),
        Vec::<MouseTerminalAction>::new()
    );
}

#[test]
fn captured_mouse_without_shift_still_forwards_drag_motion() {
    let mut state = MouseSessionState::new();
    let event = mouse_event(0, 4, 5, true, true);
    assert_eq!(
        mouse_terminal_actions(&mut state, &event, true, 1_000 * MS),
        vec![MouseTerminalAction::ForwardInput(sgr_mouse_sequence(32, 4, 5, no_mods(), true))]
    );
}

#[test]
fn sgr_sequence_is_one_based_with_press_and_release_marks() {
    assert_eq!(sgr_mouse_sequence(0, 4, 5, no_mods(), true), b"\x1b[<0;5;6M".to_vec());
    assert_eq!(sgr_mouse_sequence(0, 0, 0, no_mods(), false), b"\x1b[<0;1;1m".to_vec());
}

#[test]
fn vim_visual_keys_map_to_copy_mode_actions() {
    assert_eq!(map_copy_mode_key(ch("v"), false), Some(K::StartSelection));
    assert_eq!(map_copy_mode_key(ch("V"), false), Some(K::StartLineSelection));
    assert_eq!(map_copy_mode_key(ch("e"), true), Some(K::Down));
    assert_eq!(map_copy_mode_key(ch("y"), true), Some(K::Up));
    assert_eq!(map_copy_mode_key(ch("y"), false), Some(K::Copy));
    assert_eq!(map_copy_mode_key(ch("c"), true), Some(K::Exit));
}

#[test]
fn vim_g_ends_visual_selection_at_last_non_blank() {
    let mut state = CopyModeInputState::new();
    assert_eq!(map_copy_mode_keys_with_state(&mut state, &input("g", KeyCode::KeyG)), vec![]);
    assert_eq!(
        map_copy_mode_keys_with_state(&mut state, &input("_", KeyCode::Unidentified)),
        vec![K::LastNonBlank]
    );
}

#[test]
fn vim_visual_motion_keys_map_to_copy_mode_actions() {
    let mut state = CopyModeInputState::new();
    assert_eq!(map_copy_mode_keys_with_state(&mut state, &input("w", KeyCode::KeyW)), vec![K::WordForward]);
    assert_eq!(map_copy_mode_keys_with_state(&mut state, &shifted("W", KeyCode::KeyW)), vec![K::BigWordForward]);
    assert_eq!(map_copy_mode_keys_with_state(&mut state, &input("b", KeyCode::KeyB)), vec![K::WordBackward]);
    assert_eq!(map_copy_mode_keys_with_state(&mut state, &input("e", KeyCode::KeyE)), vec![K::WordEndForward]);
    assert_eq!(map_copy_mode_keys_with_state(&mut state, &input("g", KeyCode::KeyG)), vec![]);
    assert_eq!(map_copy_mode_keys_with_state(&mut state, &input("e", KeyCode::KeyE)), vec![K::WordEndBackward]);
    assert_eq!(map_copy_mode_keys_with_state(&mut state, &input("3", KeyCode::Digit3)), vec![]);
    assert_eq!(
        map_copy_mode_keys_with_state(&mut state, &input("w", KeyCode::KeyW)),
        vec![K::WordForward, K::WordForward, K::WordForward]
    );
}

#[test]
fn shifted_minus_resolves_g_() {
    let mut state = CopyModeInputState::new();
    assert_eq!(map_copy_mode_keys_with_state(&mut state, &input("g", KeyCode::KeyG)), vec![]);
    assert_eq!(
        map_copy_mode_keys_with_state(&mut state, &shifted("-", KeyCode::Minus)),
        vec![K::LastNonBlank]
    );
}

#[test]
fn local_copy_mode_is_active_before_service_broadcast() {
    let mut local = LocalCopyModeState::new();
    assert!(!local.is_copy_mode_active(None, 5));
    local.set_local_copy_mode(5, true);
    assert!(local.is_copy_mode_active(None, 5));
}

#[test]
fn service_copy_mode_broadcast_reconciles_local_latch() {
    let mut local = LocalCopyModeState::new();
    local.set_local_copy_mode(5, true);
    local.set_local_copy_mode(5, false);
    assert!(!local.is_copy_mode_active(Some(false), 5));
    assert!(local.is_copy_mode_active(Some(true), 5));
}

#[test]
fn exiting_copy_mode_clears_local_latch() {
    let mut local = LocalCopyModeState::new();
    local.set_local_copy_mode(5, true);
    if copy_mode_key_exits(K::Exit) {
        local.set_local_copy_mode(5, false);
    }
    assert!(!local.active.contains(&5));
    assert!(copy_mode_key_exits(K::Copy));
    assert!(!copy_mode_key_exits(K::Down));
}

#[test]
fn keys_encode_to_terminal_bytes() {
    assert_eq!(logical_key_to_bytes(&LogicalKey::Enter, false, false), b"\r".to_vec());
    assert_eq!(logical_key_to_bytes(&ch("c"), true, false), vec![3]);
    assert_eq!(logical_key_to_bytes(&ch("x"), false, true), b"\x1bx".to_vec());
    assert_eq!(logical_key_to_bytes(&LogicalKey::ArrowUp, false, false), b"\x1b[A".to_vec());
}

#[test]
fn wheel_scroll_sends_one_report_per_line_to_each_target() {
    let up = b"\x1b[<64;1;1M".to_vec();
    let down = b"\x1b[<65;1;1M".to_vec();
    assert_eq!(
        scroll_terminal_inputs(&vec![1, 2], -2),
        vec![(1, up.clone()), (1, up.clone()), (2, up.clone()), (2, up)]
    );
    assert_eq!(scroll_terminal_inputs(&vec![3], 1), vec![(3, down)]);
    assert!(scroll_terminal_inputs(&vec![3], 0).is_empty());
}

#[test]
fn mouse_copy_mode_actions_update_local_latch() {
    let mut local = LocalCopyModeState::new();
    local.apply_mouse_action(4, &MouseTerminalAction::EnterCopyMode);
    assert!(local.is_copy_mode_active(None, 4));
    local.apply_mouse_action(4, &MouseTerminalAction::SetSelection(None));
    assert!(local.is_copy_mode_active(None, 4));
    local.apply_mouse_action(4, &MouseTerminalAction::ExitCopyMode);
    assert!(!local.is_copy_mode_active(None, 4));
}

#[test]
fn selection_clicks_count_at_the_last_column_and_row() {
    let mut state = MouseSessionState::new();
    let last = u16::MAX;
    let down = mouse_event(0, last, last, true, false);
    let up = mouse_event(0, last, last, false, false);
    assert_eq!(
        mouse_terminal_actions(&mut state, &down, false, 1_000 * MS),
        vec![MouseTerminalAction::SetSelection(None)]
    );
    mouse_terminal_actions(&mut state, &up, false, 1_050 * MS);
    assert_eq!(
        mouse_terminal_actions(&mut state, &down, false, 1_100 * MS),
        vec![MouseTerminalAction::SelectWordAt { col: last, row: last }]
    );
    mouse_terminal_actions(&mut state, &up, false, 1_150 * MS);
    assert_eq!(
        mouse_terminal_actions(&mut state, &down, false, 1_200 * MS),
        vec![MouseTerminalAction::SelectLineAt { row: last }]
    );
}
