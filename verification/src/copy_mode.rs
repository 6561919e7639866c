//! Vim-style copy-mode keys: the key table, pending prefixes (`g`, `f`, `F`,
//! `t`, `T`) and numeric counts.
use crate::keys::{first_char, spec_first_char, KeyCode, LogicalKey};
use vstd::prelude::*;

verus! {

/// A copy-mode action sent to the terminal service.
#[derive(Clone, Copy, Debug, PartialEq, Eq, Structural)]
pub enum CopyModeKey {
    Left,
    Right,
    Up,
    Down,
    Copy,
    Exit,
    LineStart,
    LineEnd,
    PageUp,
    PageDown,
    FirstNonBlank,
    LastNonBlank,
    WordForward,
    BigWordForward,
    WordBackward,
    BigWordBackward,
    WordEndForward,
    BigWordEndForward,
    WordEndBackward,
    BigWordEndBackward,
    Top,
    Bottom,
    ScreenTop,
    ScreenMiddle,
    ScreenBottom,
    PrevParagraph,
    NextParagraph,
    RepeatFind,
    RepeatFindReverse,
    SwapSelectionEnds,
    StartSelection,
    StartLineSelection,
    FindForward(char),
    FindBackward(char),
    TillForward(char),
    TillBackward(char),
}

/// A prefix key waiting for its second key.
#[derive(Clone, Copy, Debug, PartialEq, Eq, Structural)]
pub enum CopyModePendingKey {
    G,
    FindForward,
    FindBackward,
    TillForward,
    TillBackward,
}

/// Per-process copy-mode input state: a pending prefix and a numeric count.
#[derive(Clone, Copy, Debug, PartialEq, Eq, Structural)]
pub struct CopyModeInputState {
    pub pending_key: Option<CopyModePendingKey>,
    pub count: Option<u16>,
}

impl CopyModeInputState {
    /// No prefix pending and no count typed.
    pub fn new() -> (s: Self)
        ensures
            s.pending_key.is_none(),
            s.count.is_none(),
    {
        CopyModeInputState { pending_key: None, count: None }
    }
}

/// One key press as copy mode reads it.
#[derive(Clone, Debug)]
pub struct CopyModeKeyInput {
    pub key: LogicalKey,
    pub key_code: KeyCode,
    pub ctrl: bool,
    pub shift: bool,
}

/// Whether the press stands for `expected`: it types that character, or it is
/// the shifted US-layout key that types it.
pub open spec fn spec_key_char_eq(input: CopyModeKeyInput, expected: char) -> bool {
    spec_first_char(input.key) == Some(expected) || (input.shift && match expected {
        '_' => input.key_code == KeyCode::Minus,
        '$' => input.key_code == KeyCode::Digit4,
        '^' => input.key_code == KeyCode::Digit6,
        '{' => input.key_code == KeyCode::BracketLeft,
        '}' => input.key_code == KeyCode::BracketRight,
        'W' => input.key_code == KeyCode::KeyW,
        'B' => input.key_code == KeyCode::KeyB,
        'E' => input.key_code == KeyCode::KeyE,
        'G' => input.key_code == KeyCode::KeyG,
        'H' => input.key_code == KeyCode::KeyH,
        'M' => input.key_code == KeyCode::KeyM,
        'L' => input.key_code == KeyCode::KeyL,
        'F' => input.key_code == KeyCode::KeyF,
        'T' => input.key_code == KeyCode::KeyT,
        'V' => input.key_code == KeyCode::KeyV,
        _ => false,
    })
}

/// Whether the press stands for `expected` (see `spec_key_char_eq`).
pub fn key_char_eq(input: &CopyModeKeyInput, expected: char) -> (res: bool)
    ensures
        res == spec_key_char_eq(*input, expected),
{
    if first_char(&input.key) == Some(expected) {
        return true;
    }
    let shift = input.shift;
    let code = input.key_code;
    match expected {
        '_' => shift && code == KeyCode::Minus,
        '$' => shift && code == KeyCode::Digit4,
        '^' => shift && code == KeyCode::Digit6,
        '{' => shift && code == KeyCode::BracketLeft,
        '}' => shift && code == KeyCode::BracketRight,
        'W' => shift && code == KeyCode::KeyW,
        'B' => shift && code == KeyCode::KeyB,
        'E' => shift && code == KeyCode::KeyE,
        'G' => shift && code == KeyCode::KeyG,
        'H' => shift && code == KeyCode::KeyH,
        'M' => shift && code == KeyCode::KeyM,
        'L' => shift && code == KeyCode::KeyL,
        'F' => shift && code == KeyCode::KeyF,
        'T' => shift && code == KeyCode::KeyT,
        'V' => shift && code == KeyCode::KeyV,
        _ => false,
    }
}

/// The decimal digit a press types, if it types one.
pub open spec fn spec_input_digit(input: CopyModeKeyInput) -> Option<u16> {
    match spec_first_char(input.key) {
        Some(c) => if '0' <= c && c <= '9' {
            Some((c as u32 - '0' as u32) as u16)
        } else {
            None
        },
        None => None,
    }
}

/// The decimal digit a press types (see `spec_input_digit`).
pub fn input_digit(input: &CopyModeKeyInput) -> (res: Option<u16>)
    ensures
        res == spec_input_digit(*input),
{
    match first_char(&input.key) {
        Some(c) => {
            if '0' <= c && c <= '9' {
                Some((c as u32 - '0' as u32) as u16)
            } else {
                None
            }
        },
        None => None,
    }
}

/// The copy-mode table for a single press: navigation keys, ctrl scrolling
/// chords and the vim letters, in priority order.
pub open spec fn spec_copy_mode_key(i: CopyModeKeyInput) -> Option<CopyModeKey> {
    match i.key {
        LogicalKey::ArrowLeft => Some(CopyModeKey::Left),
        LogicalKey::ArrowRight => Some(CopyModeKey::Right),
        LogicalKey::ArrowUp => Some(CopyModeKey::Up),
        LogicalKey::ArrowDown => Some(CopyModeKey::Down),
        LogicalKey::Enter => Some(CopyModeKey::Copy),
        LogicalKey::Escape => Some(CopyModeKey::Exit),
        LogicalKey::Home => Some(CopyModeKey::LineStart),
        LogicalKey::End => Some(CopyModeKey::LineEnd),
        LogicalKey::PageUp => Some(CopyModeKey::PageUp),
        LogicalKey::PageDown => Some(CopyModeKey::PageDown),
        _ => if i.ctrl && spec_key_char_eq(i, 'u') {
            Some(CopyModeKey::PageUp)
        } else if i.ctrl && spec_key_char_eq(i, 'd') {
            Some(CopyModeKey::PageDown)
        } else if i.ctrl && spec_key_char_eq(i, 'e') {
            Some(CopyModeKey::Down)
        } else if i.ctrl && spec_key_char_eq(i, 'y') {
            Some(CopyModeKey::Up)
        } else if i.ctrl && spec_key_char_eq(i, 'b') {
            Some(CopyModeKey::PageUp)
        } else if i.ctrl && spec_key_char_eq(i, 'f') {
            Some(CopyModeKey::PageDown)
        } else if i.ctrl && spec_key_char_eq(i, 'c') {
            Some(CopyModeKey::Exit)
        } else {
            spec_plain_copy_mode_key(i)
        },
    }
}

/// The letters and symbols of the copy-mode table (no ctrl chord matched).
pub open spec fn spec_plain_copy_mode_key(i: CopyModeKeyInput) -> Option<CopyModeKey> {
    if spec_key_char_eq(i, 'h') {
        Some(CopyModeKey::Left)
    } else if spec_key_char_eq(i, 'j') {
        Some(CopyModeKey::Down)
    } else if spec_key_char_eq(i, 'k') {
        Some(CopyModeKey::Up)
    } else if spec_key_char_eq(i, 'l') {
        Some(CopyModeKey::Right)
    } else if spec_key_char_eq(i, '0') {
        Some(CopyModeKey::LineStart)
    } else if spec_key_char_eq(i, '$') {
        Some(CopyModeKey::LineEnd)
    } else if spec_key_char_eq(i, '^') {
        Some(CopyModeKey::FirstNonBlank)
    } else if spec_key_char_eq(i, 'w') {
        Some(CopyModeKey::WordForward)
    } else if spec_key_char_eq(i, 'W') {
        Some(CopyModeKey::BigWordForward)
    } else if spec_key_char_eq(i, 'b') {
        Some(CopyModeKey::WordBackward)
    } else if spec_key_char_eq(i, 'B') {
        Some(CopyModeKey::BigWordBackward)
    } else if spec_key_char_eq(i, 'e') {
        Some(CopyModeKey::WordEndForward)
    } else if spec_key_char_eq(i, 'E') {
        Some(CopyModeKey::BigWordEndForward)
    } else if spec_key_char_eq(i, 'G') {
        Some(CopyModeKey::Bottom)
    } else if spec_key_char_eq(i, 'H') {
        Some(CopyModeKey::ScreenTop)
    } else if spec_key_char_eq(i, 'M') {
        Some(CopyModeKey::ScreenMiddle)
    } else if spec_key_char_eq(i, 'L') {
        Some(CopyModeKey::ScreenBottom)
    } else if spec_key_char_eq(i, '{') {
        Some(CopyModeKey::PrevParagraph)
    } else if spec_key_char_eq(i, '}') {
        Some(CopyModeKey::NextParagraph)
    } else if spec_key_char_eq(i, ';') {
        Some(CopyModeKey::RepeatFind)
    } else if spec_key_char_eq(i, ',') {
        Some(CopyModeKey::RepeatFindReverse)
    } else if spec_key_char_eq(i, 'o') {
        Some(CopyModeKey::SwapSelectionEnds)
    } else if spec_key_char_eq(i, 'v') {
        Some(CopyModeKey::StartSelection)
    } else if spec_key_char_eq(i, 'V') {
        Some(CopyModeKey::StartLineSelection)
    } else if spec_key_char_eq(i, 'y') {
        Some(CopyModeKey::Copy)
    } else if spec_key_char_eq(i, 'q') {
        Some(CopyModeKey::Exit)
    } else {
        None
    }
}

fn plain_copy_mode_key(i: &CopyModeKeyInput) -> (res: Option<CopyModeKey>)
    ensures
        res == spec_plain_copy_mode_key(*i),
{
    if key_char_eq(i, 'h') {
        Some(CopyModeKey::Left)
    } else if key_char_eq(i, 'j') {
        Some(CopyModeKey::Down)
    } else if key_char_eq(i, 'k') {
        Some(CopyModeKey::Up)
    } else if key_char_eq(i, 'l') {
        Some(CopyModeKey::Right)
    } else if key_char_eq(i, '0') {
        Some(CopyModeKey::LineStart)
    } else if key_char_eq(i, '$') {
        Some(CopyModeKey::LineEnd)
    } else if key_char_eq(i, '^') {
        Some(CopyModeKey::FirstNonBlank)
    } else if key_char_eq(i, 'w') {
        Some(CopyModeKey::WordForward)
    } else if key_char_eq(i, 'W') {
        Some(CopyModeKey::BigWordForward)
    } else if key_char_eq(i, 'b') {
        Some(CopyModeKey::WordBackward)
    } else if key_char_eq(i, 'B') {
        Some(CopyModeKey::BigWordBackward)
    } else if key_char_eq(i, 'e') {
        Some(CopyModeKey::WordEndForward)
    } else if key_char_eq(i, 'E') {
        Some(CopyModeKey::BigWordEndForward)
    } else if key_char_eq(i, 'G') {
        Some(CopyModeKey::Bottom)
    } else if key_char_eq(i, 'H') {
        Some(CopyModeKey::ScreenTop)
    } else if key_char_eq(i, 'M') {
        Some(CopyModeKey::ScreenMiddle)
    } else if key_char_eq(i, 'L') {
        Some(CopyModeKey::ScreenBottom)
    } else if key_char_eq(i, '{') {
        Some(CopyModeKey::PrevParagraph)
    } else if key_char_eq(i, '}') {
        Some(CopyModeKey::NextParagraph)
    } else if key_char_eq(i, ';') {
        Some(CopyModeKey::RepeatFind)
    } else if key_char_eq(i, ',') {
        Some(CopyModeKey::RepeatFindReverse)
    } else if key_char_eq(i, 'o') {
        Some(CopyModeKey::SwapSelectionEnds)
    } else if key_char_eq(i, 'v') {
        Some(CopyModeKey::StartSelection)
    } else if key_char_eq(i, 'V') {
        Some(CopyModeKey::StartLineSelection)
    } else if key_char_eq(i, 'y') {
        Some(CopyModeKey::Copy)
    } else if key_char_eq(i, 'q') {
        Some(CopyModeKey::Exit)
    } else {
        None
    }
}

/// Maps one press to its copy-mode action (see `spec_copy_mode_key`).
pub fn map_copy_mode_key_from_input(i: &CopyModeKeyInput) -> (res: Option<CopyModeKey>)
    ensures
        res == spec_copy_mode_key(*i),
{
    match &i.key {
        LogicalKey::ArrowLeft => Some(CopyModeKey::Left),
        LogicalKey::ArrowRight => Some(CopyModeKey::Right),
        LogicalKey::ArrowUp => Some(CopyModeKey::Up),
        LogicalKey::ArrowDown => Some(CopyModeKey::Down),
        LogicalKey::Enter => Some(CopyModeKey::Copy),
        LogicalKey::Escape => Some(CopyModeKey::Exit),
        LogicalKey::Home => Some(CopyModeKey::LineStart),
        LogicalKey::End => Some(CopyModeKey::LineEnd),
        LogicalKey::PageUp => Some(CopyModeKey::PageUp),
        LogicalKey::PageDown => Some(CopyModeKey::PageDown),
        _ => {
            if i.ctrl && key_char_eq(i, 'u') {
                Some(CopyModeKey::PageUp)
            } else if i.ctrl && key_char_eq(i, 'd') {
                Some(CopyModeKey::PageDown)
            } else if i.ctrl && key_char_eq(i, 'e') {
                Some(CopyModeKey::Down)
            } else if i.ctrl && key_char_eq(i, 'y') {
                Some(CopyModeKey::Up)
            } else if i.ctrl && key_char_eq(i, 'b') {
                Some(CopyModeKey::PageUp)
            } else if i.ctrl && key_char_eq(i, 'f') {
                Some(CopyModeKey::PageDown)
            } else if i.ctrl && key_char_eq(i, 'c') {
                Some(CopyModeKey::Exit)
            } else {
                plain_copy_mode_key(i)
            }
        },
    }
}

/// Maps a single key press (no shift, no key code) to its copy-mode action.
pub fn map_copy_mode_key(key: LogicalKey, ctrl: bool) -> (res: Option<CopyModeKey>)
    ensures
        res == spec_copy_mode_key(
            CopyModeKeyInput { key, key_code: KeyCode::Unidentified, ctrl, shift: false },
        ),
{
    let input = CopyModeKeyInput { key, key_code: KeyCode::Unidentified, ctrl, shift: false };
    map_copy_mode_key_from_input(&input)
}

/// Whether an action consumes the typed count (selection starts, copy and exit do not).
pub open spec fn spec_copy_mode_key_uses_count(key: CopyModeKey) -> bool {
    !matches!(
        key,
        CopyModeKey::StartSelection | CopyModeKey::StartLineSelection | CopyModeKey::Copy
            | CopyModeKey::Exit
    )
}

/// Whether an action consumes the typed count (see `spec_copy_mode_key_uses_count`).
pub fn copy_mode_key_uses_count(key: CopyModeKey) -> (res: bool)
    ensures
        res == spec_copy_mode_key_uses_count(key),
{
    match key {
        CopyModeKey::StartSelection | CopyModeKey::StartLineSelection | CopyModeKey::Copy
        | CopyModeKey::Exit => false,
        _ => true,
    }
}

/// Whether an action leaves copy mode (copy and exit).
pub open spec fn spec_copy_mode_key_exits(key: CopyModeKey) -> bool {
    matches!(key, CopyModeKey::Copy | CopyModeKey::Exit)
}

/// Whether an action leaves copy mode (see `spec_copy_mode_key_exits`).
pub fn copy_mode_key_exits(key: CopyModeKey) -> (res: bool)
    ensures
        res == spec_copy_mode_key_exits(key),
{
    match key {
        CopyModeKey::Copy | CopyModeKey::Exit => true,
        _ => false,
    }
}

/// `key` repeated by the typed count when it uses one (once otherwise); the
/// count is cleared either way.
pub open spec fn spec_repeat(state: CopyModeInputState, key: CopyModeKey) -> (
    CopyModeInputState,
    Seq<CopyModeKey>,
) {
    let n: nat = if spec_copy_mode_key_uses_count(key) {
        match state.count {
            Some(c) => c as nat,
            None => 1,
        }
    } else {
        1
    };
    (CopyModeInputState { count: None, ..state }, Seq::new(n, |_i: int| key))
}

/// Emits `key` the number of times the state's count asks for and clears the count.
pub fn repeat_copy_mode_key(state: &mut CopyModeInputState, key: CopyModeKey) -> (res: Vec<
    CopyModeKey,
>)
    ensures
        *final(state) == spec_repeat(*old(state), key).0,
        res@ == spec_repeat(*old(state), key).1,
{
    let repeat: u16 = if copy_mode_key_uses_count(key) {
        let c = state.count;
        state.count = None;
        match c {
            Some(c) => c,
            None => 1,
        }
    } else {
        state.count = None;
        1
    };
    let mut out: Vec<CopyModeKey> = Vec::new();
    let mut k: u16 = 0;
    while k < repeat
        invariant
            k <= repeat,
            out@ =~= Seq::new(k as nat, |_i: int| key),
        decreases repeat - k,
    {
        out.push(key);
        k = k + 1;
    }
    out
}

/// The key a pending prefix resolves to on this press, if any.
pub open spec fn spec_resolve_pending(pending: CopyModePendingKey, i: CopyModeKeyInput) -> Option<
    CopyModeKey,
> {
    match pending {
        CopyModePendingKey::G => if !i.ctrl && spec_key_char_eq(i, '_') {
            Some(CopyModeKey::LastNonBlank)
        } else if !i.ctrl && spec_key_char_eq(i, 'g') {
            Some(CopyModeKey::Top)
        } else if !i.ctrl && spec_key_char_eq(i, 'e') {
            Some(CopyModeKey::WordEndBackward)
        } else if !i.ctrl && spec_key_char_eq(i, 'E') {
            Some(CopyModeKey::BigWordEndBackward)
        } else {
            None
        },
        CopyModePendingKey::FindForward => match spec_first_char(i.key) {
            Some(c) => Some(CopyModeKey::FindForward(c)),
            None => None,
        },
        CopyModePendingKey::FindBackward => match spec_first_char(i.key) {
            Some(c) => Some(CopyModeKey::FindBackward(c)),
            None => None,
        },
        CopyModePendingKey::TillForward => match spec_first_char(i.key) {
            Some(c) => Some(CopyModeKey::TillForward(c)),
            None => None,
        },
        CopyModePendingKey::TillBackward => match spec_first_char(i.key) {
            Some(c) => Some(CopyModeKey::TillBackward(c)),
            None => None,
        },
    }
}

/// The prefix a press starts (without ctrl): `g`, `f`, `F`, `t` or `T`.
pub open spec fn spec_prefix_of(i: CopyModeKeyInput) -> Option<CopyModePendingKey> {
    if i.ctrl {
        None
    } else if spec_key_char_eq(i, 'g') {
        Some(CopyModePendingKey::G)
    } else if spec_key_char_eq(i, 'f') {
        Some(CopyModePendingKey::FindForward)
    } else if spec_key_char_eq(i, 'F') {
        Some(CopyModePendingKey::FindBackward)
    } else if spec_key_char_eq(i, 't') {
        Some(CopyModePendingKey::TillForward)
    } else if spec_key_char_eq(i, 'T') {
        Some(CopyModePendingKey::TillBackward)
    } else {
        None
    }
}

/// The count after typing `digit`: decimal append, capped at 999.
pub open spec fn spec_next_count(count: Option<u16>, digit: u16) -> u16 {
    let cur: int = match count {
        Some(c) => c as int,
        None => 0,
    };
    let v = cur * 10 + digit;
    if v > 999 {
        999
    } else {
        v as u16
    }
}

/// One copy-mode press: a pending prefix is resolved first; otherwise digits
/// build the count (a leading zero is the line-start key), prefix keys are
/// remembered, and any other key goes through the table, repeated by the count.
pub open spec fn spec_copy_mode_step(s: CopyModeInputState, i: CopyModeKeyInput) -> (
    CopyModeInputState,
    Seq<CopyModeKey>,
) {
    let resolved = match s.pending_key {
        Some(p) => spec_resolve_pending(p, i),
        None => None,
    };
    let s1 = CopyModeInputState { pending_key: None, ..s };
    match resolved {
        Some(k) => spec_repeat(s1, k),
        None => match spec_input_digit(i) {
            Some(d) if (d != 0 || s1.count.is_some()) && !i.ctrl => (
                CopyModeInputState { count: Some(spec_next_count(s1.count, d)), ..s1 },
                Seq::empty(),
            ),
            _ => match spec_prefix_of(i) {
                Some(p) => (CopyModeInputState { pending_key: Some(p), ..s1 }, Seq::empty()),
                None => match spec_copy_mode_key(i) {
                    Some(k) => spec_repeat(s1, k),
                    None => (s1, Seq::empty()),
                },
            },
        },
    }
}

/// The direction a vim motion letter moves in copy mode: h left, j down,
/// k up, l right.
pub open spec fn vim_direction(c: char) -> Option<CopyModeKey> {
    if c == 'h' {
        Some(CopyModeKey::Left)
    } else if c == 'j' {
        Some(CopyModeKey::Down)
    } else if c == 'k' {
        Some(CopyModeKey::Up)
    } else if c == 'l' {
        Some(CopyModeKey::Right)
    } else {
        None
    }
}

/// In copy mode the vim motion letters move the cursor their way: a press
/// that types h, j, k or l (without shift) is Left, Down, Up or Right, with
/// or without ctrl; and with no prefix pending it moves that way as many
/// times as the typed count says (once without one), clearing the count.
pub proof fn law_vim_letters_move_their_way(i: CopyModeKeyInput, s: CopyModeInputState)
    requires
        !i.shift,
        i.key is Character,
        spec_first_char(i.key) matches Some(c) && (c == 'h' || c == 'j' || c == 'k' || c == 'l'),
        s.pending_key is None,
    ensures
        spec_first_char(i.key) == Some('h') ==> spec_copy_mode_key(i) == Some(CopyModeKey::Left),
        spec_first_char(i.key) == Some('j') ==> spec_copy_mode_key(i) == Some(CopyModeKey::Down),
        spec_first_char(i.key) == Some('k') ==> spec_copy_mode_key(i) == Some(CopyModeKey::Up),
        spec_first_char(i.key) == Some('l') ==> spec_copy_mode_key(i) == Some(CopyModeKey::Right),
        ({
            let dir = vim_direction(spec_first_char(i.key)->Some_0)->Some_0;
            let n: nat = match s.count {
                Some(k) => k as nat,
                None => 1,
            };
            &&& spec_copy_mode_step(s, i).1 == Seq::new(n, |_j: int| dir)
            &&& spec_copy_mode_step(s, i).0 == (CopyModeInputState { pending_key: None, count: None })
        }),
{
    let c = spec_first_char(i.key)->Some_0;
    let dir = vim_direction(c)->Some_0;
    assert(spec_copy_mode_key(i) == Some(dir));
    assert(spec_input_digit(i) is None);
    assert(spec_prefix_of(i) is None);
    assert(spec_copy_mode_key_uses_count(dir));
}

/// What a typed character does in copy mode without ctrl, vim-style.
pub open spec fn vim_char_action(c: char) -> Option<CopyModeKey> {
    match c {
        'h' => Some(CopyModeKey::Left),
        'j' => Some(CopyModeKey::Down),
        'k' => Some(CopyModeKey::Up),
        'l' => Some(CopyModeKey::Right),
        '0' => Some(CopyModeKey::LineStart),
        '$' => Some(CopyModeKey::LineEnd),
        '^' => Some(CopyModeKey::FirstNonBlank),
        'w' => Some(CopyModeKey::WordForward),
        'W' => Some(CopyModeKey::BigWordForward),
        'b' => Some(CopyModeKey::WordBackward),
        'B' => Some(CopyModeKey::BigWordBackward),
        'e' => Some(CopyModeKey::WordEndForward),
        'E' => Some(CopyModeKey::BigWordEndForward),
        'G' => Some(CopyModeKey::Bottom),
        'H' => Some(CopyModeKey::ScreenTop),
        'M' => Some(CopyModeKey::ScreenMiddle),
        'L' => Some(CopyModeKey::ScreenBottom),
        '{' => Some(CopyModeKey::PrevParagraph),
        '}' => Some(CopyModeKey::NextParagraph),
        ';' => Some(CopyModeKey::RepeatFind),
        ',' => Some(CopyModeKey::RepeatFindReverse),
        'o' => Some(CopyModeKey::SwapSelectionEnds),
        'v' => Some(CopyModeKey::StartSelection),
        'V' => Some(CopyModeKey::StartLineSelection),
        'y' => Some(CopyModeKey::Copy),
        'q' => Some(CopyModeKey::Exit),
        _ => None,
    }
}

/// What a typed character does in copy mode with ctrl: less-style paging
/// and line scrolling, and ctrl+c to leave; other characters act as without
/// ctrl.
pub open spec fn vim_ctrl_char_action(c: char) -> Option<CopyModeKey> {
    match c {
        'u' => Some(CopyModeKey::PageUp),
        'd' => Some(CopyModeKey::PageDown),
        'e' => Some(CopyModeKey::Down),
        'y' => Some(CopyModeKey::Up),
        'b' => Some(CopyModeKey::PageUp),
        'f' => Some(CopyModeKey::PageDown),
        'c' => Some(CopyModeKey::Exit),
        _ => vim_char_action(c),
    }
}

/// The copy-mode key table, by what was pressed: the arrows move their way,
/// Enter copies, Escape leaves, Home and End go to the line's start and end,
/// Page Up and Page Down page; a typed character (without shift) acts as
/// `vim_char_action` says, or with ctrl as `vim_ctrl_char_action` says.
pub proof fn law_copy_mode_key_table(i: CopyModeKeyInput)
    ensures
        i.key == LogicalKey::ArrowLeft ==> spec_copy_mode_key(i) == Some(CopyModeKey::Left),
        i.key == LogicalKey::ArrowRight ==> spec_copy_mode_key(i) == Some(CopyModeKey::Right),
        i.key == LogicalKey::ArrowUp ==> spec_copy_mode_key(i) == Some(CopyModeKey::Up),
        i.key == LogicalKey::ArrowDown ==> spec_copy_mode_key(i) == Some(CopyModeKey::Down),
        i.key == LogicalKey::Enter ==> spec_copy_mode_key(i) == Some(CopyModeKey::Copy),
        i.key == LogicalKey::Escape ==> spec_copy_mode_key(i) == Some(CopyModeKey::Exit),
        i.key == LogicalKey::Home ==> spec_copy_mode_key(i) == Some(CopyModeKey::LineStart),
        i.key == LogicalKey::End ==> spec_copy_mode_key(i) == Some(CopyModeKey::LineEnd),
        i.key == LogicalKey::PageUp ==> spec_copy_mode_key(i) == Some(CopyModeKey::PageUp),
        i.key == LogicalKey::PageDown ==> spec_copy_mode_key(i) == Some(CopyModeKey::PageDown),
        !i.shift && i.key is Character && spec_first_char(i.key) is Some && !i.ctrl ==> spec_copy_mode_key(i)
            == vim_char_action(spec_first_char(i.key)->Some_0),
        !i.shift && i.key is Character && spec_first_char(i.key) is Some && i.ctrl ==> spec_copy_mode_key(i)
            == vim_ctrl_char_action(spec_first_char(i.key)->Some_0),
{
}

fn resolve_pending(pending: CopyModePendingKey, i: &CopyModeKeyInput) -> (res: Option<CopyModeKey>)
    ensures
        res == spec_resolve_pending(pending, *i),
{
    match pending {
        CopyModePendingKey::G => {
            if !i.ctrl && key_char_eq(i, '_') {
                Some(CopyModeKey::LastNonBlank)
            } else if !i.ctrl && key_char_eq(i, 'g') {
                Some(CopyModeKey::Top)
            } else if !i.ctrl && key_char_eq(i, 'e') {
                Some(CopyModeKey::WordEndBackward)
            } else if !i.ctrl && key_char_eq(i, 'E') {
                Some(CopyModeKey::BigWordEndBackward)
            } else {
                None
            }
        },
        CopyModePendingKey::FindForward => match first_char(&i.key) {
            Some(c) => Some(CopyModeKey::FindForward(c)),
            None => None,
        },
        CopyModePendingKey::FindBackward => match first_char(&i.key) {
            Some(c) => Some(CopyModeKey::FindBackward(c)),
            None => None,
        },
        CopyModePendingKey::TillForward => match first_char(&i.key) {
            Some(c) => Some(CopyModeKey::TillForward(c)),
            None => None,
        },
        CopyModePendingKey::TillBackward => match first_char(&i.key) {
            Some(c) => Some(CopyModeKey::TillBackward(c)),
            None => None,
        },
    }
}

fn prefix_of(i: &CopyModeKeyInput) -> (res: Option<CopyModePendingKey>)
    ensures
        res == spec_prefix_of(*i),
{
    if i.ctrl {
        None
    } else if key_char_eq(i, 'g') {
        Some(CopyModePendingKey::G)
    } else if key_char_eq(i, 'f') {
        Some(CopyModePendingKey::FindForward)
    } else if key_char_eq(i, 'F') {
        Some(CopyModePendingKey::FindBackward)
    } else if key_char_eq(i, 't') {
        Some(CopyModePendingKey::TillForward)
    } else if key_char_eq(i, 'T') {
        Some(CopyModePendingKey::TillBackward)
    } else {
        None
    }
}

/// Processes one copy-mode press against the per-process input state and
/// returns the actions to send (see `spec_copy_mode_step`).
pub fn map_copy_mode_keys_with_state(state: &mut CopyModeInputState, i: &CopyModeKeyInput) -> (res:
    Vec<CopyModeKey>)
    ensures
        *final(state) == spec_copy_mode_step(*old(state), *i).0,
        res@ == spec_copy_mode_step(*old(state), *i).1,
{
    let pending = state.pending_key;
    state.pending_key = None;
    let resolved = match pending {
        Some(p) => resolve_pending(p, i),
        None => None,
    };
    if let Some(k) = resolved {
        return repeat_copy_mode_key(state, k);
    }
    match input_digit(i) {
        Some(d) => {
            if (d != 0 || state.count.is_some()) && !i.ctrl {
                let cur: u16 = match state.count {
                    Some(c) => c,
                    None => 0,
                };
                let v: u32 = cur as u32 * 10 + d as u32;
                let next: u16 = if v > 999 {
                    999
                } else {
                    v as u16
                };
                state.count = Some(next);
                return Vec::new();
            }
        },
        None => {},
    }
    match prefix_of(i) {
        Some(p) => {
            state.pending_key = Some(p);
            Vec::new()
        },
        None => match map_copy_mode_key_from_input(i) {
            Some(k) => repeat_copy_mode_key(state, k),
            None => Vec::new(),
        },
    }
}

} // verus!
