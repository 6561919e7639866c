//! Keyboard input for terminals, one frame at a time: what each key press
//! sends to the terminal processes, in copy mode and out of it.
use crate::copy_mode::{
    copy_mode_key_exits, map_copy_mode_keys_with_state, spec_copy_mode_key_exits,
    spec_copy_mode_step, CopyModeInputState, CopyModeKey, CopyModeKeyInput,
};
use crate::keys::{is_non_character_key, spec_is_non_character_key, KeyCode, LogicalKey};
use crate::terminal_input::{logical_key_to_bytes, spec_key_bytes, LocalCopyModeState};
use vstd::prelude::*;

verus! {

/// A key event as the frame reads it.
#[derive(Clone, Debug)]
pub struct TermKeyEvent {
    /// Whether the key went down (not up).
    pub pressed: bool,
    /// Whether the event repeats a held key.
    pub repeat: bool,
    pub key_code: KeyCode,
    pub logical_key: LogicalKey,
}

/// The modifiers held during the frame.
#[derive(Clone, Copy, Debug, PartialEq, Eq, Structural)]
pub struct TermKeyMods {
    pub ctrl: bool,
    pub alt: bool,
    pub shift: bool,
    pub super_key: bool,
}

/// What a key press sends.
#[derive(Clone, Debug, PartialEq, Eq)]
pub enum TerminalKeyOutput {
    /// A copy-mode action for the process.
    CopyModeKey { process_id: u128, key: CopyModeKey },
    /// Bytes for the process's input.
    Input { process_id: u128, data: Vec<u8> },
    /// Paste the clipboard into the process (see `bracketed_paste`).
    Paste { process_id: u128 },
    /// Ask the process for its selected text, to copy it.
    RequestSelection { process_id: u128 },
}

/// An output as a mathematical value.
pub enum KeyOut {
    CopyModeKey { process_id: u128, key: CopyModeKey },
    Input { process_id: u128, data: Seq<u8> },
    Paste { process_id: u128 },
    RequestSelection { process_id: u128 },
}

impl TerminalKeyOutput {
    pub open spec fn view(self) -> KeyOut {
        match self {
            TerminalKeyOutput::CopyModeKey { process_id, key } => KeyOut::CopyModeKey { process_id, key },
            TerminalKeyOutput::Input { process_id, data } => KeyOut::Input { process_id, data: data@ },
            TerminalKeyOutput::Paste { process_id } => KeyOut::Paste { process_id },
            TerminalKeyOutput::RequestSelection { process_id } => KeyOut::RequestSelection { process_id },
        }
    }
}

/// The outputs as mathematical values.
pub open spec fn outs_view(v: Seq<TerminalKeyOutput>) -> Seq<KeyOut> {
    v.map_values(|o: TerminalKeyOutput| o.view())
}

/// What stays the same through a frame: the processes that take the input
/// (the first is the active one), whether copy mode was on for it when the
/// frame began, the modifiers, and the keys that went down this frame.
pub struct KeyFrame {
    pub targets: Seq<u128>,
    pub copy_mode_active: bool,
    pub mods: TermKeyMods,
    pub just_pressed: Seq<KeyCode>,
}

/// What changes through a frame: the non-character keys already seen, the
/// copy-mode input state of the active process (none where it has none),
/// whether copy mode was left, and the outputs so far.
pub struct KeyFrameState {
    pub seen: Seq<KeyCode>,
    pub input_state: Option<CopyModeInputState>,
    pub exited: bool,
    pub out: Seq<KeyOut>,
}

/// Arrow, Home, End and page keys, which with shift would select text.
pub open spec fn is_selection_key(k: KeyCode) -> bool {
    matches!(
        k,
        KeyCode::ArrowLeft | KeyCode::ArrowRight | KeyCode::ArrowUp | KeyCode::ArrowDown
            | KeyCode::Home | KeyCode::End | KeyCode::PageUp | KeyCode::PageDown
    )
}

/// `data` sent to each target in turn.
/// The copy-mode outputs for `keys`, all for the process `pid`.
pub open spec fn copy_outs(pid: u128, keys: Seq<CopyModeKey>) -> Seq<KeyOut> {
    keys.map_values(|k: CopyModeKey| KeyOut::CopyModeKey { process_id: pid, key: k })
}

/// Whether one of `keys` leaves copy mode.
pub open spec fn any_exits(keys: Seq<CopyModeKey>) -> bool {
    exists|j: int| 0 <= j < keys.len() && spec_copy_mode_key_exits(#[trigger] keys[j])
}

/// One key event of the frame. Key releases do nothing. A non-character key
/// that does not repeat counts once per frame, and only where it went down
/// this frame. In copy mode every press is read as a copy-mode key of the
/// active process and nothing reaches the terminal; an action that leaves
/// copy mode drops the local copy mode and its input state. With super, V
/// pastes into and C copies the selection of the first target; other super
/// keys do nothing. With shift, the selection keys do nothing. Any other key
/// sends its bytes to the first target only: further keyboard targets are
/// there by mistake and are ignored.
pub open spec fn key_step(f: KeyFrame, s: KeyFrameState, e: TermKeyEvent) -> KeyFrameState {
    if !e.pressed {
        s
    } else if !e.repeat && spec_is_non_character_key(e.key_code) && s.seen.contains(e.key_code) {
        s
    } else {
        let s1 = if !e.repeat && spec_is_non_character_key(e.key_code) {
            KeyFrameState { seen: s.seen.push(e.key_code), ..s }
        } else {
            s
        };
        if !e.repeat && spec_is_non_character_key(e.key_code) && !f.just_pressed.contains(
            e.key_code,
        ) {
            s1
        } else if f.copy_mode_active {
            let pid = f.targets[0];
            let st = match s1.input_state {
                Some(x) => x,
                None => CopyModeInputState { pending_key: None, count: None },
            };
            let input = CopyModeKeyInput {
                key: e.logical_key,
                key_code: e.key_code,
                ctrl: f.mods.ctrl,
                shift: f.mods.shift,
            };
            let r = spec_copy_mode_step(st, input);
            let leaves = any_exits(r.1);
            KeyFrameState {
                seen: s1.seen,
                input_state: if leaves {
                    None
                } else {
                    Some(r.0)
                },
                exited: s1.exited || leaves,
                out: s1.out + copy_outs(pid, r.1),
            }
        } else if f.mods.super_key {
            if e.key_code == KeyCode::KeyV {
                KeyFrameState { out: s1.out.push(KeyOut::Paste { process_id: f.targets[0] }), ..s1 }
            } else if e.key_code == KeyCode::KeyC {
                KeyFrameState {
                    out: s1.out.push(KeyOut::RequestSelection { process_id: f.targets[0] }),
                    ..s1
                }
            } else {
                s1
            }
        } else if f.mods.shift && is_selection_key(e.key_code) {
            s1
        } else {
            let bytes = spec_key_bytes(e.logical_key, f.mods.ctrl, f.mods.alt);
            if bytes.len() == 0 {
                s1
            } else {
                KeyFrameState {
                    out: s1.out.push(KeyOut::Input { process_id: f.targets[0], data: bytes }),
                    ..s1
                }
            }
        }
    }
}

/// The state after the first `n` events of the frame.
pub open spec fn frame_after(f: KeyFrame, init: KeyFrameState, events: Seq<TermKeyEvent>, n: nat) -> KeyFrameState
    decreases n,
{
    if n == 0 {
        init
    } else {
        key_step(f, frame_after(f, init, events, (n - 1) as nat), events[n - 1])
    }
}

proof fn lemma_input_state_dropped_only_on_exit(
    f: KeyFrame,
    init: KeyFrameState,
    events: Seq<TermKeyEvent>,
    n: nat,
)
    requires
        n <= events.len(),
        !init.exited,
    ensures
        frame_after(f, init, events, n).input_state is None ==> frame_after(f, init, events, n).exited
            || init.input_state is None,
        init.exited ==> frame_after(f, init, events, n).exited,
    decreases n,
{
    if n > 0 {
        lemma_input_state_dropped_only_on_exit(f, init, events, (n - 1) as nat);
    }
}

/// Whether every output is a copy-mode action for `pid`.
pub open spec fn only_copy_keys_for(out: Seq<KeyOut>, pid: u128) -> bool {
    forall|k: int| 0 <= k < out.len() ==> (#[trigger] out[k] matches KeyOut::CopyModeKey { process_id, .. } && process_id == pid)
}

/// While copy mode is on, no key of the frame reaches a terminal's input:
/// everything sent is a copy-mode action for the active process.
pub proof fn law_copy_mode_keys_never_reach_input(
    f: KeyFrame,
    init: KeyFrameState,
    events: Seq<TermKeyEvent>,
    n: nat,
)
    requires
        f.copy_mode_active,
        f.targets.len() > 0,
        init.out.len() == 0,
        n <= events.len(),
    ensures
        only_copy_keys_for(frame_after(f, init, events, n).out, f.targets[0]),
    decreases n,
{
    if n > 0 {
        law_copy_mode_keys_never_reach_input(f, init, events, (n - 1) as nat);
        let s = frame_after(f, init, events, (n - 1) as nat);
        let t = frame_after(f, init, events, n);
        assert forall|k: int| 0 <= k < t.out.len() implies (#[trigger] t.out[k] matches KeyOut::CopyModeKey {
            process_id,
            ..
        } && process_id == f.targets[0]) by {
            if k >= s.out.len() {
                let e = events[n - 1];
                let s1 = if !e.repeat && spec_is_non_character_key(e.key_code) {
                    KeyFrameState { seen: s.seen.push(e.key_code), ..s }
                } else {
                    s
                };
                let st = match s1.input_state {
                    Some(x) => x,
                    None => CopyModeInputState { pending_key: None, count: None },
                };
                let input = CopyModeKeyInput {
                    key: e.logical_key,
                    key_code: e.key_code,
                    ctrl: f.mods.ctrl,
                    shift: f.mods.shift,
                };
                let r = spec_copy_mode_step(st, input);
                assert(t.out == s.out + copy_outs(f.targets[0], r.1));
                assert(t.out[k] == copy_outs(f.targets[0], r.1)[k - s.out.len()]);
            }
        }
    }
}

/// The bytes of a paste: the text between the bracketed-paste marks, so the
/// terminal can tell pasted text from typed text.
pub fn bracketed_paste(text: &[u8]) -> (data: Vec<u8>)
    ensures
        data@ == seq![0x1bu8, 0x5bu8, 0x32u8, 0x30u8, 0x30u8, 0x7eu8] + text@ + seq![
            0x1bu8,
            0x5bu8,
            0x32u8,
            0x30u8,
            0x31u8,
            0x7eu8,
        ],
{
    let mut data: Vec<u8> = Vec::new();
    data.push(0x1b);
    data.push(0x5b);
    data.push(0x32);
    data.push(0x30);
    data.push(0x30);
    data.push(0x7e);
    let ghost head = data@;
    let mut i: usize = 0;
    while i < text.len()
        invariant
            i <= text@.len(),
            data@ == head + text@.subrange(0, i as int),
        decreases text@.len() - i,
    {
        data.push(text[i]);
        proof {
            assert(text@.subrange(0, i + 1) =~= text@.subrange(0, i as int).push(text@[i as int]));
        }
        i = i + 1;
    }
    let ghost mid = data@;
    data.push(0x1b);
    data.push(0x5b);
    data.push(0x32);
    data.push(0x30);
    data.push(0x31);
    data.push(0x7e);
    proof {
        assert(text@.subrange(0, text@.len() as int) =~= text@);
        assert(data@ =~= head + text@ + seq![0x1bu8, 0x5bu8, 0x32u8, 0x30u8, 0x31u8, 0x7eu8]);
    }
    data
}

fn contains_code(v: &Vec<KeyCode>, k: KeyCode) -> (r: bool)
    ensures
        r == v@.contains(k),
{
    let mut i: usize = 0;
    while i < v.len()
        invariant
            i <= v@.len(),
            forall|j: int| 0 <= j < i ==> v@[j] != k,
        decreases v@.len() - i,
    {
        if v[i] == k {
            assert(v@[i as int] == k);
            return true;
        }
        i = i + 1;
    }
    false
}

fn send_copy_keys(out: &mut Vec<TerminalKeyOutput>, pid: u128, keys: &Vec<CopyModeKey>) -> (leaves: bool)
    ensures
        outs_view(final(out)@) == outs_view(old(out)@) + copy_outs(pid, keys@),
        leaves == any_exits(keys@),
{
    let ghost start = outs_view(out@);
    let mut leaves = false;
    let mut i: usize = 0;
    while i < keys.len()
        invariant
            i <= keys@.len(),
            outs_view(out@) == start + copy_outs(pid, keys@.subrange(0, i as int)),
            leaves == exists|j: int| 0 <= j < i && spec_copy_mode_key_exits(#[trigger] keys@[j]),
        decreases keys@.len() - i,
    {
        let k = keys[i];
        if copy_mode_key_exits(k) {
            leaves = true;
        }
        let ghost before = out@;
        out.push(TerminalKeyOutput::CopyModeKey { process_id: pid, key: k });
        proof {
            assert(outs_view(out@) =~= outs_view(before).push(out@.last().view()));
            assert(copy_outs(pid, keys@.subrange(0, i + 1)) =~= copy_outs(
                pid,
                keys@.subrange(0, i as int),
            ).push(KeyOut::CopyModeKey { process_id: pid, key: k }));
        }
        i = i + 1;
    }
    proof {
        assert(keys@.subrange(0, keys@.len() as int) =~= keys@);
    }
    leaves
}

/// Handles the key events of one frame (see `key_step`). Nothing is sent
/// where no process takes the input, where the service is not connected, or
/// while a chord prefix is pending. The local copy-mode state of the active
/// process (the first target) is updated: it loses its latch where an
/// action left copy mode, and keeps the input state that the last copy-mode
/// key left.
pub fn handle_terminal_keys(
    local: &mut LocalCopyModeState,
    targets: &Vec<u128>,
    service_connected: bool,
    chord_pending: bool,
    copy_mode_active: bool,
    mods: TermKeyMods,
    just_pressed: &Vec<KeyCode>,
    events: &Vec<TermKeyEvent>,
) -> (out: Vec<TerminalKeyOutput>)
    ensures
        targets@.len() == 0 || !service_connected || chord_pending ==> {
            &&& out@.len() == 0
            &&& final(local).active@ == old(local).active@
            &&& final(local).input_states@ == old(local).input_states@
        },
        targets@.len() > 0 && service_connected && !chord_pending ==> {
            let pid = targets@[0];
            let f = KeyFrame { targets: targets@, copy_mode_active, mods, just_pressed: just_pressed@ };
            let init = KeyFrameState {
                seen: Seq::empty(),
                input_state: if old(local).input_states@.contains_key(pid) {
                    Some(old(local).input_states@[pid])
                } else {
                    None
                },
                exited: false,
                out: Seq::empty(),
            };
            let r = frame_after(f, init, events@, events@.len());
            &&& outs_view(out@) == r.out
            &&& final(local).active@ == if r.exited {
                old(local).active@.remove(pid)
            } else {
                old(local).active@
            }
            &&& final(local).input_states@ == match r.input_state {
                Some(st) => old(local).input_states@.insert(pid, st),
                None => old(local).input_states@.remove(pid),
            }
        },
{
    broadcast use vstd::std_specs::hash::group_hash_axioms;

    let mut out: Vec<TerminalKeyOutput> = Vec::new();
    if targets.len() == 0 || !service_connected || chord_pending {
        return out;
    }
    let pid = targets[0];
    let ghost f = KeyFrame { targets: targets@, copy_mode_active, mods, just_pressed: just_pressed@ };
    let mut input_state: Option<CopyModeInputState> = local.input_state_entry(pid);
    let ghost init = KeyFrameState { seen: Seq::empty(), input_state, exited: false, out: Seq::empty() };
    let mut seen: Vec<KeyCode> = Vec::new();
    let mut exited = false;
    proof {
        assert(seen@ =~= Seq::<KeyCode>::empty());
        assert(outs_view(out@) =~= Seq::<KeyOut>::empty());
    }
    let mut i: usize = 0;
    while i < events.len()
        invariant
            i <= events@.len(),
            targets@.len() > 0,
            pid == targets@[0],
            f == (KeyFrame { targets: targets@, copy_mode_active, mods, just_pressed: just_pressed@ }),
            frame_after(f, init, events@, i as nat) == (KeyFrameState {
                seen: seen@,
                input_state,
                exited,
                out: outs_view(out@),
            }),
        decreases events@.len() - i,
    {
        let e = &events[i];
        let ghost s = frame_after(f, init, events@, i as nat);
        proof {
            assert(frame_after(f, init, events@, (i + 1) as nat) == key_step(f, s, events@[i as int]));
        }
        if !e.pressed {
            i = i + 1;
            continue;
        }
        let nonchar = !e.repeat && is_non_character_key(e.key_code);
        if nonchar {
            if contains_code(&seen, e.key_code) {
                i = i + 1;
                continue;
            }
            seen.push(e.key_code);
            if !contains_code(just_pressed, e.key_code) {
                i = i + 1;
                continue;
            }
        }
        if copy_mode_active {
            let mut st = match input_state {
                Some(x) => x,
                None => CopyModeInputState { pending_key: None, count: None },
            };
            let input = CopyModeKeyInput {
                key: e.logical_key.duplicate(),
                key_code: e.key_code,
                ctrl: mods.ctrl,
                shift: mods.shift,
            };
            let ghost st0 = st;
            let keys = map_copy_mode_keys_with_state(&mut st, &input);
            let leaves = send_copy_keys(&mut out, pid, &keys);
            proof {
                let ghost spec_input = CopyModeKeyInput {
                    key: e.logical_key,
                    key_code: e.key_code,
                    ctrl: mods.ctrl,
                    shift: mods.shift,
                };
                assert(input == spec_input);
                let ghost r = spec_copy_mode_step(st0, spec_input);
                assert(keys@ == r.1);
                assert(st == r.0);
            }
            if leaves {
                input_state = None;
                exited = true;
            } else {
                input_state = Some(st);
            }
            i = i + 1;
            continue;
        }
        if mods.super_key {
            let ghost before = out@;
            if e.key_code == KeyCode::KeyV {
                out.push(TerminalKeyOutput::Paste { process_id: pid });
                proof {
                    assert(outs_view(out@) =~= outs_view(before).push(KeyOut::Paste { process_id: pid }));
                }
            } else if e.key_code == KeyCode::KeyC {
                out.push(TerminalKeyOutput::RequestSelection { process_id: pid });
                proof {
                    assert(outs_view(out@) =~= outs_view(before).push(
                        KeyOut::RequestSelection { process_id: pid },
                    ));
                }
            }
            i = i + 1;
            continue;
        }
        let sel = match e.key_code {
            KeyCode::ArrowLeft | KeyCode::ArrowRight | KeyCode::ArrowUp | KeyCode::ArrowDown
            | KeyCode::Home | KeyCode::End | KeyCode::PageUp | KeyCode::PageDown => true,
            _ => false,
        };
        if mods.shift && sel {
            i = i + 1;
            continue;
        }
        let bytes = logical_key_to_bytes(&e.logical_key, mods.ctrl, mods.alt);
        if bytes.len() > 0 {
            let ghost before = out@;
            let ghost data = bytes@;
            out.push(TerminalKeyOutput::Input { process_id: pid, data: bytes });
            proof {
                assert(outs_view(out@) =~= outs_view(before).push(
                    KeyOut::Input { process_id: pid, data },
                ));
            }
        }
        i = i + 1;
    }
    proof {
        assert(events@.len() == i);
        lemma_input_state_dropped_only_on_exit(f, init, events@, events@.len());
    }
    if exited {
        local.set_local_copy_mode(pid, false);
    }
    match input_state {
        Some(st) => local.store_input_state(pid, st),
        None => {},
    }
    proof {
        let ghost r = frame_after(f, init, events@, events@.len());
        assert(local.input_states@ =~= match r.input_state {
            Some(st) => old(local).input_states@.insert(pid, st),
            None => old(local).input_states@.remove(pid),
        });
    }
    out
}

} // verus!
