use vmux_desktop::service_dispatch::{
    dispatch_service_event, find_terminal, missing_process_id_text, ServiceAction,
    ServiceDispatchState, ServiceEvent, TerminalRecord, TerminalTab, TerminalWant,
};
use vmux_desktop::terminal_mouse::MouseSessionState;

fn live(entity: u64, process_id: u128, tab: u64) -> TerminalRecord {
    TerminalRecord { entity, process_id, tab, awaiting_create: false, exited: false, view_ready: true }
}

#[test]
fn process_not_found_message_parses_process_id() {
    assert_eq!(
        missing_process_id_text("process not found: 09090909-0909-0909-0909-090909090909"),
        Some("09090909-0909-0909-0909-090909090909")
    );
    assert_eq!(missing_process_id_text("permission denied"), None);
}

#[test]
fn missing_service_process_restarts_matching_terminal() {
    let mut state = ServiceDispatchState::new();
    let mut restarted = Vec::new();
    let terminals = vec![live(2, 8, 20), live(1, 7, 10)];
    let a = dispatch_service_event(
        &mut state,
        &mut restarted,
        &terminals,
        ServiceEvent::Error { stale_process: Some(7) },
        99,
    );
    assert_eq!(a, ServiceAction::RestartMissing { entity: 1, new_id: 99 });
    assert_eq!(restarted, vec![7]);
    // The same error again in the batch does not restart twice.
    let again = dispatch_service_event(
        &mut state,
        &mut restarted,
        &terminals,
        ServiceEvent::Error { stale_process: Some(7) },
        100,
    );
    assert_eq!(again, ServiceAction::Nothing);
    // An error about a process no terminal shows restarts nothing.
    let none = dispatch_service_event(
        &mut state,
        &mut restarted,
        &terminals,
        ServiceEvent::Error { stale_process: Some(5) },
        101,
    );
    assert_eq!(none, ServiceAction::Nothing);
    assert_eq!(restarted, vec![7]);
}

#[test]
fn process_created_matches_by_id_not_by_position() {
    let mut state = ServiceDispatchState::new();
    let mut restarted = Vec::new();
    let mut first = live(1, 11, 10);
    first.awaiting_create = true;
    let mut second = live(2, 22, 10);
    second.awaiting_create = true;
    let terminals = vec![first, second];
    let a = dispatch_service_event(
        &mut state,
        &mut restarted,
        &terminals,
        ServiceEvent::ProcessCreated { process_id: 22, pid: 4242 },
        0,
    );
    assert_eq!(a, ServiceAction::AttachCreated { entity: 2, process_id: 22, pid: 4242 });
    let unknown = dispatch_service_event(
        &mut state,
        &mut restarted,
        &terminals,
        ServiceEvent::ProcessCreated { process_id: 33, pid: 1 },
        0,
    );
    assert_eq!(unknown, ServiceAction::DropUnknownCreated { process_id: 33 });
}

#[test]
fn view_output_goes_to_first_ready_terminal() {
    let mut state = ServiceDispatchState::new();
    let mut restarted = Vec::new();
    let mut not_ready = live(1, 7, 10);
    not_ready.view_ready = false;
    let terminals = vec![not_ready, live(2, 7, 10), live(3, 7, 10)];
    assert_eq!(
        dispatch_service_event(&mut state, &mut restarted, &terminals, ServiceEvent::ToView { process_id: 7 }, 0),
        ServiceAction::EmitToView { entity: 2 }
    );
    assert_eq!(
        dispatch_service_event(&mut state, &mut restarted, &terminals, ServiceEvent::ToView { process_id: 8 }, 0),
        ServiceAction::Nothing
    );
}

#[test]
fn exit_closes_terminal_and_forgets_process_modes() {
    let mut state = ServiceDispatchState::new();
    let mut restarted = Vec::new();
    let terminals = vec![live(1, 7, 10)];
    dispatch_service_event(
        &mut state,
        &mut restarted,
        &terminals,
        ServiceEvent::TerminalMode { process_id: 7, mouse_capture: true, copy_mode: true },
        0,
    );
    assert_eq!(state.modes.get(&7), Some(&(true, true)));
    assert!(state.copy_mode.active.contains(&7));
    state.mouse_sessions.insert(7, MouseSessionState::new());
    let a = dispatch_service_event(
        &mut state,
        &mut restarted,
        &terminals,
        ServiceEvent::ProcessExited { process_id: 7, exit_code: Some(0) },
        0,
    );
    assert_eq!(
        a,
        ServiceAction::ProcessExited {
            process_id: 7,
            exit_code: Some(0),
            closed: Some(TerminalTab { entity: 1, tab: 10 })
        }
    );
    assert!(state.modes.get(&7).is_none());
    assert!(!state.copy_mode.active.contains(&7));
    assert!(state.mouse_sessions.get(&7).is_none());
}

#[test]
fn mode_report_sets_local_copy_latch() {
    let mut state = ServiceDispatchState::new();
    let mut restarted = Vec::new();
    state.copy_mode.set_local_copy_mode(7, true);
    dispatch_service_event(
        &mut state,
        &mut restarted,
        &Vec::new(),
        ServiceEvent::TerminalMode { process_id: 7, mouse_capture: false, copy_mode: false },
        0,
    );
    assert!(!state.copy_mode.is_copy_mode_active(Some(false), 7));
}

#[test]
fn selection_text_and_other_messages() {
    let mut state = ServiceDispatchState::new();
    let mut restarted = Vec::new();
    let t = Vec::new();
    assert_eq!(
        dispatch_service_event(&mut state, &mut restarted, &t, ServiceEvent::SelectionText { empty: false }, 0),
        ServiceAction::WriteClipboard
    );
    assert_eq!(
        dispatch_service_event(&mut state, &mut restarted, &t, ServiceEvent::SelectionText { empty: true }, 0),
        ServiceAction::Nothing
    );
    assert_eq!(dispatch_service_event(&mut state, &mut restarted, &t, ServiceEvent::Other, 0), ServiceAction::PassOn);
}

#[test]
fn find_terminal_kinds() {
    let mut exited = live(1, 7, 10);
    exited.exited = true;
    let ts = vec![exited, live(2, 7, 10)];
    assert_eq!(find_terminal(&ts, 7, TerminalWant::Live), Some(1));
    assert_eq!(find_terminal(&ts, 7, TerminalWant::Awaiting), None);
    assert_eq!(find_terminal(&ts, 9, TerminalWant::Ready), None);
}
