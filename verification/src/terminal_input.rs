//! Terminal keyboard input: bytes for a key press, input routing and the
//! local copy-mode latch.
use crate::copy_mode::CopyModeInputState;
use crate::keys::LogicalKey;
use crate::terminal_mouse::MouseTerminalAction;
use std::collections::{HashMap, HashSet};
use vstd::utf8::encode_utf8;
use vstd::prelude::*;

verus! {

/// The byte `c.to_ascii_lowercase() as u8` (ASCII upper case folded, then truncated).
pub open spec fn lower_byte(c: char) -> u8 {
    let v: u32 = if 'A' <= c && c <= 'Z' {
        (c as u32 + 32) as u32
    } else {
        c as u32
    };
    (v % 256) as u8
}

/// The control code of ctrl+`c`: `lower_byte(c) - 'a' + 1` modulo 256 (1 for a, 26 for z).
pub open spec fn ctrl_code(c: char) -> u8 {
    ((lower_byte(c) as int + 256 - 97 + 1) % 256) as u8
}

/// `ESC` followed by the rest, or the rest alone.
pub open spec fn with_alt(alt: bool, rest: Seq<u8>) -> Seq<u8> {
    if alt {
        seq![0x1bu8] + rest
    } else {
        rest
    }
}

/// The bytes a terminal receives for a key press.
///
/// A character with ctrl becomes its control code when that code is 1..=26;
/// alt prefixes ESC; navigation keys become their VT escape sequences; keys
/// without a sequence produce nothing.
pub open spec fn spec_key_bytes(key: LogicalKey, ctrl: bool, alt: bool) -> Seq<u8> {
    match key {
        LogicalKey::Character(s) => if ctrl && s@.len() > 0 && ctrl_code(s@[0]) <= 26 {
            with_alt(alt, seq![ctrl_code(s@[0])])
        } else {
            with_alt(alt, encode_utf8(s@))
        },
        LogicalKey::Enter => seq![0x0du8],
        LogicalKey::Backspace => if ctrl {
            seq![0x08u8]
        } else {
            seq![0x7fu8]
        },
        LogicalKey::Tab => seq![0x09u8],
        LogicalKey::Escape => seq![0x1bu8],
        LogicalKey::Space => if ctrl {
            with_alt(alt, seq![0x00u8])
        } else {
            seq![0x20u8]
        },
        LogicalKey::ArrowUp => seq![0x1bu8, 0x5bu8, 0x41u8],
        LogicalKey::ArrowDown => seq![0x1bu8, 0x5bu8, 0x42u8],
        LogicalKey::ArrowRight => seq![0x1bu8, 0x5bu8, 0x43u8],
        LogicalKey::ArrowLeft => seq![0x1bu8, 0x5bu8, 0x44u8],
        LogicalKey::Home => seq![0x1bu8, 0x5bu8, 0x48u8],
        LogicalKey::End => seq![0x1bu8, 0x5bu8, 0x46u8],
        LogicalKey::PageUp => seq![0x1bu8, 0x5bu8, 0x35u8, 0x7eu8],
        LogicalKey::PageDown => seq![0x1bu8, 0x5bu8, 0x36u8, 0x7eu8],
        LogicalKey::Delete => seq![0x1bu8, 0x5bu8, 0x33u8, 0x7eu8],
        LogicalKey::Insert => seq![0x1bu8, 0x5bu8, 0x32u8, 0x7eu8],
        LogicalKey::Other => Seq::empty(),
    }
}

/// The navigation keys send their standard VT sequences, whatever
/// modifier is held: the arrows `ESC [ A` (up), `B` (down), `C` (right) and
/// `D` (left); Home `ESC [ H` and End `ESC [ F`; Insert, Delete, Page Up and
/// Page Down `ESC [ 2 ~`, `ESC [ 3 ~`, `ESC [ 5 ~` and `ESC [ 6 ~`. No two of
/// them send the same bytes.
pub proof fn law_navigation_keys_send_vt_sequences(ctrl: bool, alt: bool)
    ensures
        spec_key_bytes(LogicalKey::ArrowUp, ctrl, alt) == seq![0x1bu8, 0x5bu8, 0x41u8],
        spec_key_bytes(LogicalKey::ArrowDown, ctrl, alt) == seq![0x1bu8, 0x5bu8, 0x42u8],
        spec_key_bytes(LogicalKey::ArrowRight, ctrl, alt) == seq![0x1bu8, 0x5bu8, 0x43u8],
        spec_key_bytes(LogicalKey::ArrowLeft, ctrl, alt) == seq![0x1bu8, 0x5bu8, 0x44u8],
        spec_key_bytes(LogicalKey::Home, ctrl, alt) == seq![0x1bu8, 0x5bu8, 0x48u8],
        spec_key_bytes(LogicalKey::End, ctrl, alt) == seq![0x1bu8, 0x5bu8, 0x46u8],
        spec_key_bytes(LogicalKey::Insert, ctrl, alt) == seq![0x1bu8, 0x5bu8, 0x32u8, 0x7eu8],
        spec_key_bytes(LogicalKey::Delete, ctrl, alt) == seq![0x1bu8, 0x5bu8, 0x33u8, 0x7eu8],
        spec_key_bytes(LogicalKey::PageUp, ctrl, alt) == seq![0x1bu8, 0x5bu8, 0x35u8, 0x7eu8],
        spec_key_bytes(LogicalKey::PageDown, ctrl, alt) == seq![0x1bu8, 0x5bu8, 0x36u8, 0x7eu8],
        forall|a: LogicalKey, b: LogicalKey|
            is_navigation_key(a) && is_navigation_key(b) && a != b ==> #[trigger] spec_key_bytes(a, ctrl, alt)
                != #[trigger] spec_key_bytes(b, ctrl, alt),
{
    assert forall|a: LogicalKey, b: LogicalKey|
        is_navigation_key(a) && is_navigation_key(b) && a != b implies #[trigger] spec_key_bytes(a, ctrl, alt)
        != #[trigger] spec_key_bytes(b, ctrl, alt) by {
        let x = spec_key_bytes(a, ctrl, alt);
        let y = spec_key_bytes(b, ctrl, alt);
        if x.len() == y.len() {
            if x.len() == 3 {
                assert(x[2] != y[2]);
            } else {
                assert(x[2] != y[2]);
            }
        }
    }
}

/// The other keys: Enter sends CR (13), Tab HT (9), Escape ESC (27);
/// Backspace sends DEL (127), or BS (8) with ctrl; Space sends a space (32),
/// or NUL with ctrl (after ESC with alt). Ctrl with a letter sends its
/// control code, 1 for a or A up to 26 for z or Z, after ESC with alt; a
/// typed text without ctrl is sent as its UTF-8 bytes, after ESC with alt.
pub proof fn law_key_bytes_table(ctrl: bool, alt: bool, s: String)
    ensures
        spec_key_bytes(LogicalKey::Enter, ctrl, alt) == seq![13u8],
        spec_key_bytes(LogicalKey::Tab, ctrl, alt) == seq![9u8],
        spec_key_bytes(LogicalKey::Escape, ctrl, alt) == seq![27u8],
        spec_key_bytes(LogicalKey::Backspace, ctrl, alt) == if ctrl {
            seq![8u8]
        } else {
            seq![127u8]
        },
        spec_key_bytes(LogicalKey::Space, ctrl, alt) == if ctrl {
            if alt {
                seq![27u8, 0u8]
            } else {
                seq![0u8]
            }
        } else {
            seq![32u8]
        },
        ctrl && s@.len() > 0 && 'a' <= s@[0] <= 'z' ==> spec_key_bytes(LogicalKey::Character(s), ctrl, alt)
            == if alt {
            seq![27u8, (s@[0] as u32 - 96) as u8]
        } else {
            seq![(s@[0] as u32 - 96) as u8]
        },
        ctrl && s@.len() > 0 && 'A' <= s@[0] <= 'Z' ==> spec_key_bytes(LogicalKey::Character(s), ctrl, alt)
            == if alt {
            seq![27u8, (s@[0] as u32 - 64) as u8]
        } else {
            seq![(s@[0] as u32 - 64) as u8]
        },
        !ctrl ==> spec_key_bytes(LogicalKey::Character(s), ctrl, alt) == if alt {
            seq![27u8] + encode_utf8(s@)
        } else {
            encode_utf8(s@)
        },
{
    if s@.len() > 0 {
        let c = s@[0];
        if 'a' <= c && c <= 'z' {
            assert(lower_byte(c) == c as u32) by {
                assert((c as u32) < 256);
            }
            assert(ctrl_code(c) == (c as u32 - 96) as u8);
        }
        if 'A' <= c && c <= 'Z' {
            assert(lower_byte(c) == c as u32 + 32);
            assert(ctrl_code(c) == (c as u32 - 64) as u8);
        }
    }
}

/// The keys that move the cursor or the page.
pub open spec fn is_navigation_key(k: LogicalKey) -> bool {
    match k {
        LogicalKey::ArrowUp | LogicalKey::ArrowDown | LogicalKey::ArrowRight | LogicalKey::ArrowLeft
        | LogicalKey::Home | LogicalKey::End | LogicalKey::Insert | LogicalKey::Delete
        | LogicalKey::PageUp | LogicalKey::PageDown => true,
        _ => false,
    }
}

fn bytes_vec(bytes: &[u8]) -> (res: Vec<u8>)
    ensures
        res@ == bytes@,
{
    let mut out: Vec<u8> = Vec::new();
    let mut i: usize = 0;
    while i < bytes.len()
        invariant
            i <= bytes@.len(),
            out@ =~= bytes@.subrange(0, i as int),
        decreases bytes@.len() - i,
    {
        out.push(bytes[i]);
        i = i + 1;
    }
    out
}

fn prefixed(alt: bool, rest: Vec<u8>) -> (res: Vec<u8>)
    ensures
        res@ == with_alt(alt, rest@),
{
    if alt {
        let mut out: Vec<u8> = Vec::new();
        out.push(0x1b);
        let mut i: usize = 0;
        while i < rest.len()
            invariant
                i <= rest@.len(),
                out@ =~= seq![0x1bu8] + rest@.subrange(0, i as int),
            decreases rest@.len() - i,
        {
            out.push(rest[i]);
            i = i + 1;
        }
        out
    } else {
        rest
    }
}

/// The bytes to send to the PTY for a key press (see `spec_key_bytes`).
pub fn logical_key_to_bytes(key: &LogicalKey, ctrl: bool, alt: bool) -> (res: Vec<u8>)
    ensures
        res@ == spec_key_bytes(*key, ctrl, alt),
{
    match key {
        LogicalKey::Character(s) => {
            if ctrl && !s.as_str().is_empty() {
                let c = s.get_char(0);
                let v: u32 = if 'A' <= c && c <= 'Z' {
                    c as u32 + 32
                } else {
                    c as u32
                };
                let b: u32 = v % 256;
                let code: u32 = (b + 256 - 97 + 1) % 256;
                assert(code as u8 == ctrl_code(c));
                if code <= 26 {
                    let mut v1: Vec<u8> = Vec::new();
                    v1.push(code as u8);
                    return prefixed(alt, v1);
                }
            }
            let raw = bytes_vec(s.as_str().as_bytes());
            prefixed(alt, raw)
        },
        LogicalKey::Enter => vec![0x0du8],
        LogicalKey::Backspace => if ctrl {
            vec![0x08u8]
        } else {
            vec![0x7fu8]
        },
        LogicalKey::Tab => vec![0x09u8],
        LogicalKey::Escape => vec![0x1bu8],
        LogicalKey::Space => {
            if ctrl {
                let mut v1: Vec<u8> = Vec::new();
                v1.push(0);
                prefixed(alt, v1)
            } else {
                vec![0x20u8]
            }
        },
        LogicalKey::ArrowUp => vec![0x1bu8, 0x5bu8, 0x41u8],
        LogicalKey::ArrowDown => vec![0x1bu8, 0x5bu8, 0x42u8],
        LogicalKey::ArrowRight => vec![0x1bu8, 0x5bu8, 0x43u8],
        LogicalKey::ArrowLeft => vec![0x1bu8, 0x5bu8, 0x44u8],
        LogicalKey::Home => vec![0x1bu8, 0x5bu8, 0x48u8],
        LogicalKey::End => vec![0x1bu8, 0x5bu8, 0x46u8],
        LogicalKey::PageUp => vec![0x1bu8, 0x5bu8, 0x35u8, 0x7eu8],
        LogicalKey::PageDown => vec![0x1bu8, 0x5bu8, 0x36u8, 0x7eu8],
        LogicalKey::Delete => vec![0x1bu8, 0x5bu8, 0x33u8, 0x7eu8],
        LogicalKey::Insert => vec![0x1bu8, 0x5bu8, 0x32u8, 0x7eu8],
        LogicalKey::Other => Vec::new(),
    }
}

/// Terminals receiving keyboard input: the terminals the webview layer targets;
/// otherwise, in user mode with no other keyboard target, the terminals of the
/// focused tab, in the order given.
pub open spec fn spec_input_targets(
    targeted: Seq<u128>,
    any_keyboard_target_active: bool,
    focused_tab: Option<u64>,
    terminals_by_tab: Seq<(u64, u128)>,
    user_mode: bool,
) -> Seq<u128> {
    if targeted.len() > 0 {
        targeted
    } else if any_keyboard_target_active || !user_mode {
        Seq::empty()
    } else {
        match focused_tab {
            Some(tab) => terminals_by_tab.filter(on_tab(tab)).map_values(process_of()),
            None => Seq::empty(),
        }
    }
}

/// Whether a (tab, process) pair belongs to `tab`.
pub open spec fn on_tab(tab: u64) -> spec_fn((u64, u128)) -> bool {
    |p: (u64, u128)| p.0 == tab
}

/// The process of a (tab, process) pair.
pub open spec fn process_of() -> spec_fn((u64, u128)) -> u128 {
    |p: (u64, u128)| p.1
}

/// Chooses the processes that receive keyboard input (see `spec_input_targets`).
/// Tabs are entity ids, processes are 128-bit process ids.
pub fn resolve_terminal_input_targets(
    targeted: Vec<u128>,
    any_keyboard_target_active: bool,
    focused_tab: Option<u64>,
    terminals_by_tab: &Vec<(u64, u128)>,
    user_mode: bool,
) -> (res: Vec<u128>)
    ensures
        res@ == spec_input_targets(
            targeted@,
            any_keyboard_target_active,
            focused_tab,
            terminals_by_tab@,
            user_mode,
        ),
{
    if targeted.len() > 0 {
        return targeted;
    }
    if any_keyboard_target_active || !user_mode {
        return Vec::new();
    }
    let tab = match focused_tab {
        Some(t) => t,
        None => return Vec::new(),
    };
    let ghost pred = on_tab(tab);
    let ghost f = process_of();
    let mut out: Vec<u128> = Vec::new();
    let mut i: usize = 0;
    while i < terminals_by_tab.len()
        invariant
            i <= terminals_by_tab@.len(),
            pred == on_tab(tab),
            f == process_of(),
            out@ == terminals_by_tab@.subrange(0, i as int).filter(pred).map_values(f),
        decreases terminals_by_tab@.len() - i,
    {
        let entry = terminals_by_tab[i];
        proof {
            let s = terminals_by_tab@;
            assert(s.subrange(0, i as int + 1) =~= s.subrange(0, i as int).push(entry));
            s.subrange(0, i as int).lemma_filter_push(entry, pred);
            s.subrange(0, i as int).filter(pred).lemma_push_map_commute(f, entry);
        }
        if entry.0 == tab {
            out.push(entry.1);
        }
        proof {
            let s = terminals_by_tab@;
            let pre = s.subrange(0, i as int).filter(pred);
            if entry.0 == tab {
                assert(s.subrange(0, i as int + 1).filter(pred) == pre.push(entry));
                assert(f(entry) == entry.1);
                assert(out@ =~= s.subrange(0, i as int + 1).filter(pred).map_values(f));
            } else {
                assert(s.subrange(0, i as int + 1).filter(pred) == pre);
            }
        }
        i = i + 1;
    }
    proof {
        assert(terminals_by_tab@.subrange(0, terminals_by_tab@.len() as int) =~= terminals_by_tab@);
    }
    out
}

/// Copy-mode state the desktop keeps per process before the service confirms it.
pub struct LocalCopyModeState {
    /// Processes with copy mode switched on locally.
    pub active: HashSet<u128>,
    /// Copy-mode input state per process.
    pub input_states: HashMap<u128, CopyModeInputState>,
}

impl LocalCopyModeState {
    /// No local copy mode and no input state.
    pub fn new() -> (s: Self)
        ensures
            s.active@ == Set::<u128>::empty(),
            s.input_states@ == Map::<u128, CopyModeInputState>::empty(),
    {
        LocalCopyModeState { active: HashSet::new(), input_states: HashMap::new() }
    }

    /// Whether copy mode is on for `process_id`: the service says so, or the
    /// desktop switched it on locally.
    pub fn is_copy_mode_active(&self, service_copy_mode: Option<bool>, process_id: u128) -> (res:
        bool)
        ensures
            res == (service_copy_mode == Some(true) || self.active@.contains(process_id)),
    {
        broadcast use vstd::std_specs::hash::group_hash_axioms;
        service_copy_mode == Some(true) || self.active.contains(&process_id)
    }

    /// Switches local copy mode on or off; switching off also drops the
    /// process's copy-mode input state.
    pub fn set_local_copy_mode(&mut self, process_id: u128, active: bool)
        ensures
            active ==> final(self).active@ == old(self).active@.insert(process_id),
            active ==> final(self).input_states@ == old(self).input_states@,
            !active ==> final(self).active@ == old(self).active@.remove(process_id),
            !active ==> final(self).input_states@ == old(self).input_states@.remove(process_id),
    {
        broadcast use vstd::std_specs::hash::group_hash_axioms;
        if active {
            self.active.insert(process_id);
        } else {
            self.active.remove(&process_id);
            self.input_states.remove(&process_id);
        }
    }

    /// The copy-mode input state kept for `process_id`, if there is one.
    pub fn input_state_entry(&self, process_id: u128) -> (res: Option<CopyModeInputState>)
        ensures
            res == (if self.input_states@.contains_key(process_id) {
                Some(self.input_states@[process_id])
            } else {
                None
            }),
    {
        broadcast use vstd::std_specs::hash::group_hash_axioms;
        match self.input_states.get(&process_id) {
            Some(s) => Some(*s),
            None => None,
        }
    }

    /// Follows a mouse action in the local copy-mode state: entering copy
    /// mode switches it on for the process, leaving it switches it off (and
    /// drops the process's input state); other actions change nothing.
    pub fn apply_mouse_action(&mut self, process_id: u128, action: &MouseTerminalAction)
        ensures
            match action {
                MouseTerminalAction::EnterCopyMode => final(self).active@ == old(self).active@.insert(
                    process_id,
                ) && final(self).input_states@ == old(self).input_states@,
                MouseTerminalAction::ExitCopyMode => final(self).active@ == old(self).active@.remove(
                    process_id,
                ) && final(self).input_states@ == old(self).input_states@.remove(process_id),
                _ => final(self).active@ == old(self).active@ && final(self).input_states@ == old(
                    self,
                ).input_states@,
            },
    {
        match action {
            MouseTerminalAction::EnterCopyMode => self.set_local_copy_mode(process_id, true),
            MouseTerminalAction::ExitCopyMode => self.set_local_copy_mode(process_id, false),
            _ => {},
        }
    }

    /// Stores the copy-mode input state of `process_id`.
    pub fn store_input_state(&mut self, process_id: u128, state: CopyModeInputState)
        ensures
            final(self).input_states@ == old(self).input_states@.insert(process_id, state),
            final(self).active@ == old(self).active@,
    {
        broadcast use vstd::std_specs::hash::group_hash_axioms;
        self.input_states.insert(process_id, state);
    }
}

} // verus!
