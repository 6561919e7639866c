//! Physical key codes and logical keys as the shell reads them.
use vstd::prelude::*;

verus! {

/// A physical key position (US layout names).
#[derive(Clone, Copy, Debug, PartialEq, Eq, Hash, Structural)]
pub enum KeyCode {
    KeyA,
    KeyB,
    KeyC,
    KeyD,
    KeyE,
    KeyF,
    KeyG,
    KeyH,
    KeyI,
    KeyJ,
    KeyK,
    KeyL,
    KeyM,
    KeyN,
    KeyO,
    KeyP,
    KeyQ,
    KeyR,
    KeyS,
    KeyT,
    KeyU,
    KeyV,
    KeyW,
    KeyX,
    KeyY,
    KeyZ,
    Digit0,
    Digit1,
    Digit2,
    Digit3,
    Digit4,
    Digit5,
    Digit6,
    Digit7,
    Digit8,
    Digit9,
    Equal,
    Minus,
    BracketLeft,
    BracketRight,
    Quote,
    Semicolon,
    Backslash,
    Comma,
    Slash,
    Period,
    Backquote,
    Tab,
    Space,
    Backspace,
    Escape,
    Enter,
    F1,
    F2,
    F3,
    F4,
    F5,
    F6,
    F7,
    F8,
    F9,
    F10,
    F11,
    F12,
    Home,
    End,
    PageUp,
    PageDown,
    Delete,
    Insert,
    ArrowLeft,
    ArrowRight,
    ArrowUp,
    ArrowDown,
    ControlLeft,
    ControlRight,
    ShiftLeft,
    ShiftRight,
    AltLeft,
    AltRight,
    SuperLeft,
    SuperRight,
    Unidentified,
}

/// The logical meaning of a key press under the active layout.
#[derive(Clone, Debug, PartialEq, Eq)]
pub enum LogicalKey {
    Character(String),
    Enter,
    Backspace,
    Tab,
    Escape,
    Space,
    ArrowUp,
    ArrowDown,
    ArrowLeft,
    ArrowRight,
    Home,
    End,
    PageUp,
    PageDown,
    Delete,
    Insert,
    Other,
}

/// Whether `key` is one of the eight modifier keys.
pub open spec fn spec_is_modifier_key(key: KeyCode) -> bool {
    matches!(
        key,
        KeyCode::ControlLeft | KeyCode::ControlRight | KeyCode::ShiftLeft | KeyCode::ShiftRight
            | KeyCode::AltLeft | KeyCode::AltRight | KeyCode::SuperLeft | KeyCode::SuperRight
    )
}

/// Whether `key` is a modifier key (ctrl, shift, alt or super, either side).
pub fn is_modifier_key(key: KeyCode) -> (res: bool)
    ensures
        res == spec_is_modifier_key(key),
{
    match key {
        KeyCode::ControlLeft | KeyCode::ControlRight | KeyCode::ShiftLeft | KeyCode::ShiftRight
        | KeyCode::AltLeft | KeyCode::AltRight | KeyCode::SuperLeft | KeyCode::SuperRight => true,
        _ => false,
    }
}

/// Whether `key` produces no text of its own: function keys, navigation keys,
/// escape, tab, enter, backspace, delete and insert.
pub open spec fn spec_is_non_character_key(key: KeyCode) -> bool {
    matches!(
        key,
        KeyCode::F1 | KeyCode::F2 | KeyCode::F3 | KeyCode::F4 | KeyCode::F5 | KeyCode::F6
            | KeyCode::F7 | KeyCode::F8 | KeyCode::F9 | KeyCode::F10 | KeyCode::F11 | KeyCode::F12
            | KeyCode::ArrowLeft | KeyCode::ArrowUp | KeyCode::ArrowRight | KeyCode::ArrowDown
            | KeyCode::Home | KeyCode::End | KeyCode::PageUp | KeyCode::PageDown | KeyCode::Escape
            | KeyCode::Tab | KeyCode::Enter | KeyCode::Backspace | KeyCode::Delete
            | KeyCode::Insert
    )
}

/// Whether `key` is a non-character key (see `spec_is_non_character_key`).
pub fn is_non_character_key(key: KeyCode) -> (res: bool)
    ensures
        res == spec_is_non_character_key(key),
{
    match key {
        KeyCode::F1 | KeyCode::F2 | KeyCode::F3 | KeyCode::F4 | KeyCode::F5 | KeyCode::F6
        | KeyCode::F7 | KeyCode::F8 | KeyCode::F9 | KeyCode::F10 | KeyCode::F11 | KeyCode::F12
        | KeyCode::ArrowLeft | KeyCode::ArrowUp | KeyCode::ArrowRight | KeyCode::ArrowDown
        | KeyCode::Home | KeyCode::End | KeyCode::PageUp | KeyCode::PageDown | KeyCode::Escape
        | KeyCode::Tab | KeyCode::Enter | KeyCode::Backspace | KeyCode::Delete | KeyCode::Insert => {
            true
        },
        _ => false,
    }
}

/// The first character a logical key produces, if it produces any.
pub open spec fn spec_first_char(key: LogicalKey) -> Option<char> {
    match key {
        LogicalKey::Character(s) => if s@.len() > 0 {
            Some(s@[0])
        } else {
            None
        },
        _ => None,
    }
}

/// The first character of a `Character` key.
pub fn first_char(key: &LogicalKey) -> (res: Option<char>)
    ensures
        res == spec_first_char(*key),
{
    match key {
        LogicalKey::Character(s) => {
            if s.as_str().is_empty() {
                None
            } else {
                Some(s.get_char(0))
            }
        },
        _ => None,
    }
}

impl LogicalKey {
    /// A copy of the key.
    pub fn duplicate(&self) -> (r: LogicalKey)
        ensures
            r == *self,
    {
        match self {
            LogicalKey::Character(s) => LogicalKey::Character(s.clone()),
            LogicalKey::Enter => LogicalKey::Enter,
            LogicalKey::Backspace => LogicalKey::Backspace,
            LogicalKey::Tab => LogicalKey::Tab,
            LogicalKey::Escape => LogicalKey::Escape,
            LogicalKey::Space => LogicalKey::Space,
            LogicalKey::ArrowUp => LogicalKey::ArrowUp,
            LogicalKey::ArrowDown => LogicalKey::ArrowDown,
            LogicalKey::ArrowLeft => LogicalKey::ArrowLeft,
            LogicalKey::ArrowRight => LogicalKey::ArrowRight,
            LogicalKey::Home => LogicalKey::Home,
            LogicalKey::End => LogicalKey::End,
            LogicalKey::PageUp => LogicalKey::PageUp,
            LogicalKey::PageDown => LogicalKey::PageDown,
            LogicalKey::Delete => LogicalKey::Delete,
            LogicalKey::Insert => LogicalKey::Insert,
            LogicalKey::Other => LogicalKey::Other,
        }
    }
}

} // verus!
