//! What the shell does with each message from the terminal service: which
//! terminal a message is meant for, which processes lose their modes when
//! they exit, and which terminals are restarted when the service no longer
//! knows their process.
use crate::terminal_input::LocalCopyModeState;
use crate::terminal_mouse::MouseSessionState;
use crate::text::{chars_of, range_starts_with, starts_with};
use std::collections::HashMap;
use vstd::prelude::*;

verus! {

/// A terminal as the dispatcher sees it: its entity, the process it shows,
/// the tab that holds it, whether it still waits for its process to be
/// created, whether its process exited, and whether its view can take events.
#[derive(Clone, Copy, Debug, PartialEq, Eq, Structural)]
pub struct TerminalRecord {
    pub entity: u64,
    pub process_id: u128,
    pub tab: u64,
    pub awaiting_create: bool,
    pub exited: bool,
    pub view_ready: bool,
}

/// Which terminals a message may go to.
#[derive(Clone, Copy, Debug, PartialEq, Eq, Structural)]
pub enum TerminalWant {
    /// One waiting for its process to be created.
    Awaiting,
    /// One whose process runs.
    Live,
    /// One whose process runs and whose view can take events.
    Ready,
}

/// Whether `t` shows `pid` and is of the kind wanted.
pub open spec fn wanted(t: TerminalRecord, pid: u128, w: TerminalWant) -> bool {
    t.process_id == pid && match w {
        TerminalWant::Awaiting => t.awaiting_create,
        TerminalWant::Live => !t.awaiting_create && !t.exited,
        TerminalWant::Ready => !t.awaiting_create && !t.exited && t.view_ready,
    }
}

/// The first terminal at or after `i` that shows `pid` and is of the kind wanted.
pub open spec fn first_wanted(ts: Seq<TerminalRecord>, pid: u128, w: TerminalWant, i: int) -> Option<
    int,
>
    decreases ts.len() - i,
{
    if i < 0 || i >= ts.len() {
        None
    } else if wanted(ts[i], pid, w) {
        Some(i)
    } else {
        first_wanted(ts, pid, w, i + 1)
    }
}

proof fn lemma_first_wanted(ts: Seq<TerminalRecord>, pid: u128, w: TerminalWant, i: int)
    requires
        0 <= i,
    ensures
        match first_wanted(ts, pid, w, i) {
            Some(k) => i <= k < ts.len() && wanted(ts[k], pid, w),
            None => true,
        },
    decreases ts.len() - i,
{
    if i < ts.len() && !wanted(ts[i], pid, w) {
        lemma_first_wanted(ts, pid, w, i + 1);
    }
}

/// The first terminal that shows `pid` and is of the kind wanted (see `first_wanted`).
pub fn find_terminal(ts: &Vec<TerminalRecord>, pid: u128, w: TerminalWant) -> (r: Option<usize>)
    ensures
        match r {
            Some(k) => first_wanted(ts@, pid, w, 0) == Some(k as int),
            None => first_wanted(ts@, pid, w, 0) is None,
        },
{
    let mut i: usize = 0;
    while i < ts.len()
        invariant
            i <= ts@.len(),
            first_wanted(ts@, pid, w, 0) == first_wanted(ts@, pid, w, i as int),
        decreases ts@.len() - i,
    {
        let t = ts[i];
        let hit = t.process_id == pid && match w {
            TerminalWant::Awaiting => t.awaiting_create,
            TerminalWant::Live => !t.awaiting_create && !t.exited,
            TerminalWant::Ready => !t.awaiting_create && !t.exited && t.view_ready,
        };
        if hit {
            return Some(i);
        }
        i = i + 1;
    }
    None
}

/// A message from the service, reduced to what decides where it goes.
#[derive(Clone, Copy, Debug, PartialEq, Eq, Structural)]
pub enum ServiceEvent {
    /// The process asked for under `process_id` runs as the system process `pid`.
    ProcessCreated { process_id: u128, pid: u32 },
    /// Output for a terminal's view: a viewport patch, a title or a snapshot.
    ToView { process_id: u128 },
    /// The process ended.
    ProcessExited { process_id: u128, exit_code: Option<i32> },
    /// An error; `stale_process` is the process it says the service no
    /// longer knows, where it says so.
    Error { stale_process: Option<u128> },
    /// The terminal modes the process is in.
    TerminalMode { process_id: u128, mouse_capture: bool, copy_mode: bool },
    /// Text selected in a terminal, empty or not.
    SelectionText { empty: bool },
    /// A message handled the same whatever the terminals are: a failed
    /// create, the process list, or a request of an agent.
    Other,
}

/// A terminal entity and the tab that holds it.
#[derive(Clone, Copy, Debug, PartialEq, Eq, Structural)]
pub struct TerminalTab {
    pub entity: u64,
    pub tab: u64,
}

/// What the shell does with a message.
#[derive(Clone, Copy, Debug, PartialEq, Eq, Structural)]
pub enum ServiceAction {
    /// Attach to the created process and record it on `entity`.
    AttachCreated { entity: u64, process_id: u128, pid: u32 },
    /// No terminal waits for this process: the message is dropped.
    DropUnknownCreated { process_id: u128 },
    /// Send the message's payload to the view of `entity`.
    EmitToView { entity: u64 },
    /// Report the exit; where a terminal showed the process, mark it exited,
    /// bring its tab forward and close its stack (`closed` is the entity and
    /// its tab).
    ProcessExited { process_id: u128, exit_code: Option<i32>, closed: Option<TerminalTab> },
    /// Create a fresh process `new_id` for `entity` with its old launch.
    RestartMissing { entity: u64, new_id: u128 },
    /// Put the selected text on the clipboard.
    WriteClipboard,
    /// Handle the message as it is, whatever the terminals are.
    PassOn,
    /// Nothing to do.
    Nothing,
}

/// The per-process state that service messages update: the modes the
/// service reported, the local copy-mode latch, and the mouse sessions.
pub struct ServiceDispatchState {
    /// Mouse capture and copy mode per process, as the service last said.
    pub modes: HashMap<u128, (bool, bool)>,
    pub copy_mode: LocalCopyModeState,
    pub mouse_sessions: HashMap<u128, MouseSessionState>,
}

impl ServiceDispatchState {
    /// No process known.
    pub fn new() -> (s: Self)
        ensures
            s.modes@ == Map::<u128, (bool, bool)>::empty(),
            s.copy_mode.active@ == Set::<u128>::empty(),
            s.copy_mode.input_states@.dom() == Set::<u128>::empty(),
            s.mouse_sessions@ == Map::<u128, MouseSessionState>::empty(),
    {
        ServiceDispatchState {
            modes: HashMap::new(),
            copy_mode: LocalCopyModeState::new(),
            mouse_sessions: HashMap::new(),
        }
    }
}

/// The action for a message given the terminals, the processes already
/// restarted in this batch of messages, and the id a restart would use.
pub open spec fn spec_action(
    ts: Seq<TerminalRecord>,
    restarted: Seq<u128>,
    event: ServiceEvent,
    fresh_id: u128,
) -> ServiceAction {
    match event {
        ServiceEvent::ProcessCreated { process_id, pid } => match first_wanted(
            ts,
            process_id,
            TerminalWant::Awaiting,
            0,
        ) {
            Some(k) => ServiceAction::AttachCreated { entity: ts[k].entity, process_id, pid },
            None => ServiceAction::DropUnknownCreated { process_id },
        },
        ServiceEvent::ToView { process_id } => match first_wanted(
            ts,
            process_id,
            TerminalWant::Ready,
            0,
        ) {
            Some(k) => ServiceAction::EmitToView { entity: ts[k].entity },
            None => ServiceAction::Nothing,
        },
        ServiceEvent::ProcessExited { process_id, exit_code } => ServiceAction::ProcessExited {
            process_id,
            exit_code,
            closed: match first_wanted(ts, process_id, TerminalWant::Live, 0) {
                Some(k) => Some(TerminalTab { entity: ts[k].entity, tab: ts[k].tab }),
                None => None,
            },
        },
        ServiceEvent::Error { stale_process } => match stale_process {
            Some(s) => if restarted.contains(s) {
                ServiceAction::Nothing
            } else {
                match first_wanted(ts, s, TerminalWant::Live, 0) {
                    Some(k) => ServiceAction::RestartMissing { entity: ts[k].entity, new_id: fresh_id },
                    None => ServiceAction::Nothing,
                }
            },
            None => ServiceAction::Nothing,
        },
        ServiceEvent::TerminalMode { .. } => ServiceAction::Nothing,
        ServiceEvent::SelectionText { empty } => if empty {
            ServiceAction::Nothing
        } else {
            ServiceAction::WriteClipboard
        },
        ServiceEvent::Other => ServiceAction::PassOn,
    }
}

fn contains_id(v: &Vec<u128>, x: u128) -> (r: bool)
    ensures
        r == v@.contains(x),
{
    let mut i: usize = 0;
    while i < v.len()
        invariant
            i <= v@.len(),
            forall|j: int| 0 <= j < i ==> v@[j] != x,
        decreases v@.len() - i,
    {
        if v[i] == x {
            assert(v@[i as int] == x);
            return true;
        }
        i = i + 1;
    }
    false
}

/// Handles one service message: decides its action (see `spec_action`) and
/// updates the per-process state. A reported mode is recorded and sets the
/// local copy-mode latch to it; an exit forgets the process's modes, latch
/// and mouse session; a restart adds the stale process to `restarted`, so
/// that a repeated error in the same batch does not restart it twice.
/// `fresh_id` is the new process id a restart uses.
pub fn dispatch_service_event(
    state: &mut ServiceDispatchState,
    restarted: &mut Vec<u128>,
    terminals: &Vec<TerminalRecord>,
    event: ServiceEvent,
    fresh_id: u128,
) -> (action: ServiceAction)
    ensures
        action == spec_action(terminals@, old(restarted)@, event, fresh_id),
        final(restarted)@ == match (event, action) {
            (ServiceEvent::Error { stale_process: Some(s) }, ServiceAction::RestartMissing { .. }) => old(
                restarted,
            )@.push(s),
            _ => old(restarted)@,
        },
        match event {
            ServiceEvent::TerminalMode { process_id, mouse_capture, copy_mode } => {
                &&& final(state).modes@ == old(state).modes@.insert(
                    process_id,
                    (mouse_capture, copy_mode),
                )
                &&& final(state).copy_mode.active@ == if copy_mode {
                    old(state).copy_mode.active@.insert(process_id)
                } else {
                    old(state).copy_mode.active@.remove(process_id)
                }
                &&& final(state).copy_mode.input_states@ == if copy_mode {
                    old(state).copy_mode.input_states@
                } else {
                    old(state).copy_mode.input_states@.remove(process_id)
                }
                &&& final(state).mouse_sessions@ == old(state).mouse_sessions@
            },
            ServiceEvent::ProcessExited { process_id, .. } => {
                &&& final(state).modes@ == old(state).modes@.remove(process_id)
                &&& final(state).copy_mode.active@ == old(state).copy_mode.active@.remove(process_id)
                &&& final(state).copy_mode.input_states@ == old(
                    state,
                ).copy_mode.input_states@.remove(process_id)
                &&& final(state).mouse_sessions@ == old(state).mouse_sessions@.remove(process_id)
            },
            _ => {
                &&& final(state).modes@ == old(state).modes@
                &&& final(state).copy_mode.active@ == old(state).copy_mode.active@
                &&& final(state).copy_mode.input_states@ == old(state).copy_mode.input_states@
                &&& final(state).mouse_sessions@ == old(state).mouse_sessions@
            },
        },
{
    broadcast use vstd::std_specs::hash::group_hash_axioms;

    proof {
        lemma_first_wanted(terminals@, 0, TerminalWant::Live, 0);
    }
    match event {
        ServiceEvent::ProcessCreated { process_id, pid } => {
            proof {
                lemma_first_wanted(terminals@, process_id, TerminalWant::Awaiting, 0);
            }
            match find_terminal(terminals, process_id, TerminalWant::Awaiting) {
                Some(k) => ServiceAction::AttachCreated { entity: terminals[k].entity, process_id, pid },
                None => ServiceAction::DropUnknownCreated { process_id },
            }
        },
        ServiceEvent::ToView { process_id } => {
            proof {
                lemma_first_wanted(terminals@, process_id, TerminalWant::Ready, 0);
            }
            match find_terminal(terminals, process_id, TerminalWant::Ready) {
                Some(k) => ServiceAction::EmitToView { entity: terminals[k].entity },
                None => ServiceAction::Nothing,
            }
        },
        ServiceEvent::ProcessExited { process_id, exit_code } => {
            proof {
                lemma_first_wanted(terminals@, process_id, TerminalWant::Live, 0);
            }
            state.modes.remove(&process_id);
            state.copy_mode.set_local_copy_mode(process_id, false);
            state.mouse_sessions.remove(&process_id);
            let closed = match find_terminal(terminals, process_id, TerminalWant::Live) {
                Some(k) => Some(TerminalTab { entity: terminals[k].entity, tab: terminals[k].tab }),
                None => None,
            };
            ServiceAction::ProcessExited { process_id, exit_code, closed }
        },
        ServiceEvent::Error { stale_process } => match stale_process {
            Some(s) => {
                proof {
                    lemma_first_wanted(terminals@, s, TerminalWant::Live, 0);
                }
                if contains_id(restarted, s) {
                    ServiceAction::Nothing
                } else {
                    match find_terminal(terminals, s, TerminalWant::Live) {
                        Some(k) => {
                            restarted.push(s);
                            ServiceAction::RestartMissing { entity: terminals[k].entity, new_id: fresh_id }
                        },
                        None => ServiceAction::Nothing,
                    }
                }
            },
            None => ServiceAction::Nothing,
        },
        ServiceEvent::TerminalMode { process_id, mouse_capture, copy_mode } => {
            state.modes.insert(process_id, (mouse_capture, copy_mode));
            state.copy_mode.set_local_copy_mode(process_id, copy_mode);
            ServiceAction::Nothing
        },
        ServiceEvent::SelectionText { empty } => {
            if empty {
                ServiceAction::Nothing
            } else {
                ServiceAction::WriteClipboard
            }
        },
        ServiceEvent::Other => ServiceAction::PassOn,
    }
}

/// Within one batch of messages a stale process is restarted at most once:
/// after a restart the same error again restarts nothing.
pub proof fn law_stale_process_restarted_once(
    ts: Seq<TerminalRecord>,
    restarted: Seq<u128>,
    stale: u128,
    first_id: u128,
    second_id: u128,
)
    ensures
        spec_action(ts, restarted, ServiceEvent::Error { stale_process: Some(stale) }, first_id)
            is RestartMissing ==> spec_action(
            ts,
            restarted.push(stale),
            ServiceEvent::Error { stale_process: Some(stale) },
            second_id,
        ) == ServiceAction::Nothing,
{
    assert(restarted.push(stale)[restarted.len() as int] == stale);
}

/// The text of a process id in a "process not found" error: what follows
/// the prefix `process not found: `, where the message starts with it.
pub fn missing_process_id_text(message: &str) -> (r: Option<&str>)
    ensures
        match r {
            Some(t) => starts_with(message@, "process not found: "@) && t@ == message@.subrange(
                "process not found: "@.len() as int,
                message@.len() as int,
            ),
            None => !starts_with(message@, "process not found: "@),
        },
{
    let cs = chars_of(message);
    let prefix = chars_of("process not found: ");
    let hit = range_starts_with(&cs, 0, cs.len(), &prefix);
    proof {
        assert(cs@.subrange(0, cs@.len() as int) =~= message@);
    }
    if !hit {
        return None;
    }
    let n = prefix.len();
    Some(message.substring_char(n, cs.len()))
}

} // verus!
