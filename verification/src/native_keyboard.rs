//! The native key monitor: virtual key codes, modifier flags, and the
//! decision to consume a key press before it reaches web content.
use crate::keys::KeyCode;
use crate::shortcut::{
    decide, is_bare_escape, spec_decide, spec_is_bare_escape, KeyAction, KeyCombo, Modifiers,
    PendingPrefix, ShortcutMap,
};
use vstd::prelude::*;

verus! {

/// The key code of a macOS virtual key, for the keys the shell binds.
pub open spec fn spec_key_code_from_vk(vk: u16) -> Option<KeyCode> {
    match vk {
        0x00 => Some(KeyCode::KeyA),
        0x01 => Some(KeyCode::KeyS),
        0x02 => Some(KeyCode::KeyD),
        0x03 => Some(KeyCode::KeyF),
        0x04 => Some(KeyCode::KeyH),
        0x05 => Some(KeyCode::KeyG),
        0x06 => Some(KeyCode::KeyZ),
        0x07 => Some(KeyCode::KeyX),
        0x08 => Some(KeyCode::KeyC),
        0x09 => Some(KeyCode::KeyV),
        0x0B => Some(KeyCode::KeyB),
        0x0C => Some(KeyCode::KeyQ),
        0x0D => Some(KeyCode::KeyW),
        0x0E => Some(KeyCode::KeyE),
        0x0F => Some(KeyCode::KeyR),
        0x10 => Some(KeyCode::KeyY),
        0x11 => Some(KeyCode::KeyT),
        0x12 => Some(KeyCode::Digit1),
        0x13 => Some(KeyCode::Digit2),
        0x14 => Some(KeyCode::Digit3),
        0x15 => Some(KeyCode::Digit4),
        0x16 => Some(KeyCode::Digit6),
        0x17 => Some(KeyCode::Digit5),
        0x18 => Some(KeyCode::Equal),
        0x19 => Some(KeyCode::Digit9),
        0x1A => Some(KeyCode::Digit7),
        0x1B => Some(KeyCode::Minus),
        0x1C => Some(KeyCode::Digit8),
        0x1D => Some(KeyCode::Digit0),
        0x1E => Some(KeyCode::BracketRight),
        0x1F => Some(KeyCode::KeyO),
        0x20 => Some(KeyCode::KeyU),
        0x21 => Some(KeyCode::BracketLeft),
        0x22 => Some(KeyCode::KeyI),
        0x23 => Some(KeyCode::KeyP),
        0x24 => Some(KeyCode::Enter),
        0x25 => Some(KeyCode::KeyL),
        0x26 => Some(KeyCode::KeyJ),
        0x27 => Some(KeyCode::Quote),
        0x28 => Some(KeyCode::KeyK),
        0x29 => Some(KeyCode::Semicolon),
        0x2A => Some(KeyCode::Backslash),
        0x2B => Some(KeyCode::Comma),
        0x2C => Some(KeyCode::Slash),
        0x2D => Some(KeyCode::KeyN),
        0x2E => Some(KeyCode::KeyM),
        0x2F => Some(KeyCode::Period),
        0x30 => Some(KeyCode::Tab),
        0x31 => Some(KeyCode::Space),
        0x32 => Some(KeyCode::Backquote),
        0x33 => Some(KeyCode::Backspace),
        0x35 => Some(KeyCode::Escape),
        0x60 => Some(KeyCode::F5),
        0x61 => Some(KeyCode::F6),
        0x62 => Some(KeyCode::F7),
        0x63 => Some(KeyCode::F3),
        0x64 => Some(KeyCode::F8),
        0x65 => Some(KeyCode::F9),
        0x67 => Some(KeyCode::F11),
        0x6D => Some(KeyCode::F10),
        0x6F => Some(KeyCode::F12),
        0x73 => Some(KeyCode::Home),
        0x74 => Some(KeyCode::PageUp),
        0x75 => Some(KeyCode::Delete),
        0x76 => Some(KeyCode::F4),
        0x77 => Some(KeyCode::End),
        0x78 => Some(KeyCode::F2),
        0x79 => Some(KeyCode::PageDown),
        0x7A => Some(KeyCode::F1),
        0x7B => Some(KeyCode::ArrowLeft),
        0x7C => Some(KeyCode::ArrowRight),
        0x7D => Some(KeyCode::ArrowDown),
        0x7E => Some(KeyCode::ArrowUp),
        _ => None,
    }
}

/// The key code of a macOS virtual key (see `spec_key_code_from_vk`).
pub fn key_code_from_vk(vk: u16) -> (res: Option<KeyCode>)
    ensures
        res == spec_key_code_from_vk(vk),
{
    match vk {
        0x00 => Some(KeyCode::KeyA),
        0x01 => Some(KeyCode::KeyS),
        0x02 => Some(KeyCode::KeyD),
        0x03 => Some(KeyCode::KeyF),
        0x04 => Some(KeyCode::KeyH),
        0x05 => Some(KeyCode::KeyG),
        0x06 => Some(KeyCode::KeyZ),
        0x07 => Some(KeyCode::KeyX),
        0x08 => Some(KeyCode::KeyC),
        0x09 => Some(KeyCode::KeyV),
        0x0B => Some(KeyCode::KeyB),
        0x0C => Some(KeyCode::KeyQ),
        0x0D => Some(KeyCode::KeyW),
        0x0E => Some(KeyCode::KeyE),
        0x0F => Some(KeyCode::KeyR),
        0x10 => Some(KeyCode::KeyY),
        0x11 => Some(KeyCode::KeyT),
        0x12 => Some(KeyCode::Digit1),
        0x13 => Some(KeyCode::Digit2),
        0x14 => Some(KeyCode::Digit3),
        0x15 => Some(KeyCode::Digit4),
        0x16 => Some(KeyCode::Digit6),
        0x17 => Some(KeyCode::Digit5),
        0x18 => Some(KeyCode::Equal),
        0x19 => Some(KeyCode::Digit9),
        0x1A => Some(KeyCode::Digit7),
        0x1B => Some(KeyCode::Minus),
        0x1C => Some(KeyCode::Digit8),
        0x1D => Some(KeyCode::Digit0),
        0x1E => Some(KeyCode::BracketRight),
        0x1F => Some(KeyCode::KeyO),
        0x20 => Some(KeyCode::KeyU),
        0x21 => Some(KeyCode::BracketLeft),
        0x22 => Some(KeyCode::KeyI),
        0x23 => Some(KeyCode::KeyP),
        0x24 => Some(KeyCode::Enter),
        0x25 => Some(KeyCode::KeyL),
        0x26 => Some(KeyCode::KeyJ),
        0x27 => Some(KeyCode::Quote),
        0x28 => Some(KeyCode::KeyK),
        0x29 => Some(KeyCode::Semicolon),
        0x2A => Some(KeyCode::Backslash),
        0x2B => Some(KeyCode::Comma),
        0x2C => Some(KeyCode::Slash),
        0x2D => Some(KeyCode::KeyN),
        0x2E => Some(KeyCode::KeyM),
        0x2F => Some(KeyCode::Period),
        0x30 => Some(KeyCode::Tab),
        0x31 => Some(KeyCode::Space),
        0x32 => Some(KeyCode::Backquote),
        0x33 => Some(KeyCode::Backspace),
        0x35 => Some(KeyCode::Escape),
        0x60 => Some(KeyCode::F5),
        0x61 => Some(KeyCode::F6),
        0x62 => Some(KeyCode::F7),
        0x63 => Some(KeyCode::F3),
        0x64 => Some(KeyCode::F8),
        0x65 => Some(KeyCode::F9),
        0x67 => Some(KeyCode::F11),
        0x6D => Some(KeyCode::F10),
        0x6F => Some(KeyCode::F12),
        0x73 => Some(KeyCode::Home),
        0x74 => Some(KeyCode::PageUp),
        0x75 => Some(KeyCode::Delete),
        0x76 => Some(KeyCode::F4),
        0x77 => Some(KeyCode::End),
        0x78 => Some(KeyCode::F2),
        0x79 => Some(KeyCode::PageDown),
        0x7A => Some(KeyCode::F1),
        0x7B => Some(KeyCode::ArrowLeft),
        0x7C => Some(KeyCode::ArrowRight),
        0x7D => Some(KeyCode::ArrowDown),
        0x7E => Some(KeyCode::ArrowUp),
        _ => None,
    }
}

/// No two bound virtual keys give the same key code.
pub proof fn lemma_key_code_from_vk_injective(a: u16, b: u16)
    requires
        spec_key_code_from_vk(a) is Some,
        spec_key_code_from_vk(a) == spec_key_code_from_vk(b),
    ensures
        a == b,
{
}

/// The modifier flags of a native key event.
#[derive(Clone, Copy, Debug, PartialEq, Eq)]
pub struct NativeModifierFlags {
    pub control: bool,
    pub shift: bool,
    pub option: bool,
    pub command: bool,
}

/// The combo of a native key event: its key and its flags, control as ctrl,
/// option as alt and command as super.
pub open spec fn spec_translate(key_code: u16, flags: NativeModifierFlags) -> Option<KeyCombo> {
    match spec_key_code_from_vk(key_code) {
        Some(key) => Some(
            KeyCombo {
                key,
                modifiers: Modifiers {
                    ctrl: flags.control,
                    shift: flags.shift,
                    alt: flags.option,
                    super_key: flags.command,
                },
            },
        ),
        None => None,
    }
}

/// The combo of a native key event, or `None` for a key the shell does not bind.
pub fn translate(key_code: u16, flags: NativeModifierFlags) -> (res: Option<KeyCombo>)
    ensures
        res == spec_translate(key_code, flags),
{
    match key_code_from_vk(key_code) {
        Some(key) => Some(
            KeyCombo {
                key,
                modifiers: Modifiers {
                    ctrl: flags.control,
                    shift: flags.shift,
                    alt: flags.option,
                    super_key: flags.command,
                },
            },
        ),
        None => None,
    }
}

/// What the event monitor does with a key press: swallow it, and wake the
/// event loop so that a queued command is issued on the next frame.
#[derive(Clone, Copy, Debug, PartialEq, Eq)]
pub struct KeyDisposition {
    pub consume: bool,
    pub wake: bool,
}

/// State shared between the native key monitor and the frame loop: the
/// shortcut map once loaded, the pending chord prefix, the escape-exits-fullscreen
/// switch and its request, and the commands waiting to be issued.
#[derive(Clone, Debug)]
pub struct NativeKeyMonitor {
    pub map: Option<ShortcutMap>,
    pub pending: PendingPrefix,
    pub escape_exits_fullscreen: bool,
    pub exit_fullscreen_requested: bool,
    pub commands: Vec<String>,
}

/// What `classify` does to the monitor and decides: a bare escape exits
/// fullscreen while that is switched on; without a map every press passes
/// through; otherwise the chord decision stands.
pub open spec fn spec_classify(m: NativeKeyMonitor, c: KeyCombo, now_ns: u64) -> (
    NativeKeyMonitor,
    KeyAction,
) {
    if spec_is_bare_escape(c) && m.escape_exits_fullscreen {
        (NativeKeyMonitor { exit_fullscreen_requested: true, ..m }, KeyAction::Consume(None))
    } else {
        match m.map {
            None => (m, KeyAction::PassThrough),
            Some(map) => {
                let d = spec_decide(map, m.pending, c, now_ns);
                (NativeKeyMonitor { pending: d.0, ..m }, d.1)
            },
        }
    }
}

/// The commands queued after `action`: its command, if it carries one.
pub open spec fn queued_after(commands: Seq<String>, action: KeyAction) -> Seq<String> {
    match action {
        KeyAction::Consume(Some(cmd)) => commands.push(cmd),
        _ => commands,
    }
}

impl NativeKeyMonitor {
    /// No map, no pending prefix, escape does not exit fullscreen, nothing queued.
    pub fn new() -> (m: Self)
        ensures
            m.map is None,
            m.pending is None,
            !m.escape_exits_fullscreen,
            !m.exit_fullscreen_requested,
            m.commands@.len() == 0,
    {
        NativeKeyMonitor {
            map: None,
            pending: None,
            escape_exits_fullscreen: false,
            exit_fullscreen_requested: false,
            commands: Vec::new(),
        }
    }

    /// Installs the shortcut map the monitor decides with.
    pub fn set_shortcut_map(&mut self, map: ShortcutMap)
        ensures
            *final(self) == (NativeKeyMonitor { map: Some(map), ..*old(self) }),
    {
        self.map = Some(map);
    }

    /// Switches whether a bare escape exits fullscreen.
    pub fn set_escape_exits_fullscreen(&mut self, value: bool)
        ensures
            *final(self) == (NativeKeyMonitor { escape_exits_fullscreen: value, ..*old(self) }),
    {
        self.escape_exits_fullscreen = value;
    }

    /// Whether an exit from fullscreen was requested since the last call; clears the request.
    pub fn take_exit_fullscreen_request(&mut self) -> (requested: bool)
        ensures
            requested == old(self).exit_fullscreen_requested,
            *final(self) == (NativeKeyMonitor { exit_fullscreen_requested: false, ..*old(self) }),
    {
        let requested = self.exit_fullscreen_requested;
        self.exit_fullscreen_requested = false;
        requested
    }

    /// Decides what happens to a key press (see `spec_classify`).
    pub fn classify(&mut self, c: KeyCombo, now_ns: u64) -> (action: KeyAction)
        ensures
            *final(self) == spec_classify(*old(self), c, now_ns).0,
            action == spec_classify(*old(self), c, now_ns).1,
    {
        if is_bare_escape(&c) && self.escape_exits_fullscreen {
            self.exit_fullscreen_requested = true;
            return KeyAction::Consume(None);
        }
        match &self.map {
            None => KeyAction::PassThrough,
            Some(map) => {
                let mut pending = self.pending;
                let action = decide(map, &mut pending, c, now_ns);
                self.pending = pending;
                action
            },
        }
    }

    /// Carries out a decision: a consumed press wakes the loop and queues its
    /// command, if any; a press let through changes nothing.
    pub fn handle_key_action(&mut self, action: KeyAction) -> (d: KeyDisposition)
        ensures
            d.consume == (action is Consume),
            d.wake == (action is Consume),
            final(self).commands@ == queued_after(old(self).commands@, action),
            final(self).map == old(self).map,
            final(self).pending == old(self).pending,
            final(self).escape_exits_fullscreen == old(self).escape_exits_fullscreen,
            final(self).exit_fullscreen_requested == old(self).exit_fullscreen_requested,
    {
        match action {
            KeyAction::Consume(cmd) => {
                match cmd {
                    Some(cmd) => self.commands.push(cmd),
                    None => {},
                }
                KeyDisposition { consume: true, wake: true }
            },
            KeyAction::PassThrough => KeyDisposition { consume: false, wake: false },
        }
    }

    /// A key-down event from the native monitor: an unbound key passes through;
    /// a bound one is classified and its decision carried out.
    pub fn on_key_down(&mut self, key_code: u16, flags: NativeModifierFlags, now_ns: u64) -> (d:
        KeyDisposition)
        ensures
            match spec_translate(key_code, flags) {
                None => d == (KeyDisposition { consume: false, wake: false }) && *final(self)
                    == *old(self),
                Some(c) => {
                    let r = spec_classify(*old(self), c, now_ns);
                    &&& d.consume == (r.1 is Consume)
                    &&& d.wake == (r.1 is Consume)
                    &&& final(self).commands@ == queued_after(r.0.commands@, r.1)
                    &&& final(self).map == r.0.map
                    &&& final(self).pending == r.0.pending
                    &&& final(self).escape_exits_fullscreen == r.0.escape_exits_fullscreen
                    &&& final(self).exit_fullscreen_requested == r.0.exit_fullscreen_requested
                },
            },
    {
        match translate(key_code, flags) {
            None => KeyDisposition { consume: false, wake: false },
            Some(c) => {
                let action = self.classify(c, now_ns);
                self.handle_key_action(action)
            },
        }
    }

    /// Takes the queued commands, oldest first, leaving the queue empty.
    pub fn drain_commands(&mut self) -> (drained: Vec<String>)
        ensures
            drained@ == old(self).commands@,
            final(self).commands@.len() == 0,
            final(self).map == old(self).map,
            final(self).pending == old(self).pending,
            final(self).escape_exits_fullscreen == old(self).escape_exits_fullscreen,
            final(self).exit_fullscreen_requested == old(self).exit_fullscreen_requested,
    {
        let mut drained: Vec<String> = Vec::new();
        std::mem::swap(&mut drained, &mut self.commands);
        drained
    }
}

} // verus!
