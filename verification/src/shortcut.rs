//! Keyboard shortcuts: direct bindings, leader chords, the chord timeout and
//! the per-frame and per-event decisions built on them.
use crate::keys::{is_modifier_key, spec_is_modifier_key, KeyCode};
use vstd::prelude::*;

verus! {

/// Modifier keys held with a key.
#[derive(Clone, Copy, Debug, PartialEq, Eq, Hash, Structural)]
pub struct Modifiers {
    pub ctrl: bool,
    pub shift: bool,
    pub alt: bool,
    pub super_key: bool,
}

impl Modifiers {
    /// No modifier held.
    pub fn none() -> (m: Self)
        ensures
            !m.ctrl && !m.shift && !m.alt && !m.super_key,
    {
        Modifiers { ctrl: false, shift: false, alt: false, super_key: false }
    }
}

/// A key together with the modifiers held.
#[derive(Clone, Copy, Debug, PartialEq, Eq, Hash, Structural)]
pub struct KeyCombo {
    pub key: KeyCode,
    pub modifiers: Modifiers,
}

/// A binding: one combo, or a prefix combo followed by a second combo.
#[derive(Clone, Copy, Debug, PartialEq, Eq, Structural)]
pub enum Shortcut {
    Direct(KeyCombo),
    Chord(KeyCombo, KeyCombo),
}

/// Bindings in priority order, each with the id of the command it issues, and
/// the longest wait between the two halves of a chord.
#[derive(Clone, Debug)]
pub struct ShortcutMap {
    pub bindings: Vec<(Shortcut, String)>,
    pub chord_timeout_ms: u64,
}

/// `key` with ctrl only.
pub fn combo(key: KeyCode, ctrl: bool) -> (c: KeyCombo)
    ensures
        c.key == key,
        c.modifiers == (Modifiers { ctrl, shift: false, alt: false, super_key: false }),
{
    KeyCombo { key, modifiers: Modifiers { ctrl, shift: false, alt: false, super_key: false } }
}

/// `key` with super (command) only.
pub fn super_combo(key: KeyCode) -> (c: KeyCombo)
    ensures
        c.key == key,
        c.modifiers == (Modifiers { ctrl: false, shift: false, alt: false, super_key: true }),
{
    KeyCombo { key, modifiers: Modifiers { ctrl: false, shift: false, alt: false, super_key: true } }
}

/// Whether a combo holds ctrl, alt or super.
pub open spec fn has_command_modifier(c: KeyCombo) -> bool {
    c.modifiers.ctrl || c.modifiers.alt || c.modifiers.super_key
}

/// Escape with none of ctrl, alt or super.
pub open spec fn spec_is_bare_escape(c: KeyCombo) -> bool {
    c.key == KeyCode::Escape && !has_command_modifier(c)
}

/// Whether the combo is a bare escape (shift does not count).
pub fn is_bare_escape(c: &KeyCombo) -> (res: bool)
    ensures
        res == spec_is_bare_escape(*c),
{
    c.key == KeyCode::Escape && !c.modifiers.ctrl && !c.modifiers.alt && !c.modifiers.super_key
}

/// The combos that dismiss the command bar: a bare escape, or ctrl+C without super.
pub open spec fn spec_is_command_bar_dismiss_combo(c: KeyCombo) -> bool {
    spec_is_bare_escape(c) || (c.key == KeyCode::KeyC && c.modifiers.ctrl && !c.modifiers.alt
        && !c.modifiers.super_key)
}

/// Whether the combo dismisses the command bar (see `spec_is_command_bar_dismiss_combo`).
pub fn is_command_bar_dismiss_combo(c: &KeyCombo) -> (res: bool)
    ensures
        res == spec_is_command_bar_dismiss_combo(*c),
{
    is_bare_escape(c) || (c.key == KeyCode::KeyC && c.modifiers.ctrl && !c.modifiers.alt
        && !c.modifiers.super_key)
}

/// The second half of a chord as matched: the modifiers the prefix held are
/// not required to be held again.
pub open spec fn spec_effective_second(prefix: KeyCombo, pressed: KeyCombo) -> KeyCombo {
    KeyCombo {
        key: pressed.key,
        modifiers: Modifiers {
            ctrl: pressed.modifiers.ctrl && !prefix.modifiers.ctrl,
            shift: pressed.modifiers.shift,
            alt: pressed.modifiers.alt && !prefix.modifiers.alt,
            super_key: pressed.modifiers.super_key && !prefix.modifiers.super_key,
        },
    }
}

/// The second half of a chord as matched (see `spec_effective_second`).
pub fn effective_chord_second(prefix: &KeyCombo, pressed: &KeyCombo) -> (res: KeyCombo)
    ensures
        res == spec_effective_second(*prefix, *pressed),
{
    let mut e = *pressed;
    if prefix.modifiers.ctrl {
        e.modifiers.ctrl = false;
    }
    if prefix.modifiers.alt {
        e.modifiers.alt = false;
    }
    if prefix.modifiers.super_key {
        e.modifiers.super_key = false;
    }
    e
}

/// The command of the first direct binding for `pressed`, searching from index `i`.
pub open spec fn first_direct_from(b: Seq<(Shortcut, String)>, pressed: KeyCombo, i: int) -> Option<
    String,
>
    decreases b.len() - i,
{
    if i >= b.len() || i < 0 {
        None
    } else if b[i].0 == Shortcut::Direct(pressed) {
        Some(b[i].1)
    } else {
        first_direct_from(b, pressed, i + 1)
    }
}

/// The command of the first chord binding with this prefix and second half,
/// searching from index `i`.
pub open spec fn first_chord_from(
    b: Seq<(Shortcut, String)>,
    prefix: KeyCombo,
    second: KeyCombo,
    i: int,
) -> Option<String>
    decreases b.len() - i,
{
    if i >= b.len() || i < 0 {
        None
    } else if b[i].0 == Shortcut::Chord(prefix, second) {
        Some(b[i].1)
    } else {
        first_chord_from(b, prefix, second, i + 1)
    }
}

/// Whether a binding is a chord that starts with `prefix`.
pub open spec fn chord_starts_with(sc: Shortcut, prefix: KeyCombo) -> bool {
    match sc {
        Shortcut::Chord(p, _) => p == prefix,
        Shortcut::Direct(_) => false,
    }
}

/// Whether some chord binding starts with `pressed`.
pub open spec fn spec_has_chord_prefix(b: Seq<(Shortcut, String)>, pressed: KeyCombo) -> bool {
    exists|i: int| 0 <= i < b.len() && #[trigger] chord_starts_with(b[i].0, pressed)
}

/// The command the direct binding of `pressed` issues.
pub open spec fn spec_direct_command(map: ShortcutMap, pressed: KeyCombo) -> Option<String> {
    first_direct_from(map.bindings@, pressed, 0)
}

/// The command the chord `prefix`, `pressed` issues.
pub open spec fn spec_chord_command(map: ShortcutMap, prefix: KeyCombo, pressed: KeyCombo) -> Option<
    String,
> {
    first_chord_from(map.bindings@, prefix, spec_effective_second(prefix, pressed), 0)
}

/// The command of the first direct binding for `pressed`.
pub fn direct_command(map: &ShortcutMap, pressed: &KeyCombo) -> (res: Option<String>)
    ensures
        res == spec_direct_command(*map, *pressed),
{
    let b = &map.bindings;
    let mut i: usize = b.len();
    let mut found: Option<String> = None;
    // Scan from the back so that the last assignment is the first match.
    while i > 0
        invariant
            i <= b@.len(),
            found == first_direct_from(b@, *pressed, i as int),
        decreases i,
    {
        i = i - 1;
        let entry = &b[i];
        if entry.0 == Shortcut::Direct(*pressed) {
            found = Some(entry.1.clone());
        }
    }
    found
}

/// Whether some chord binding starts with `pressed`.
pub fn has_chord_prefix(map: &ShortcutMap, pressed: &KeyCombo) -> (res: bool)
    ensures
        res == spec_has_chord_prefix(map.bindings@, *pressed),
{
    let b = &map.bindings;
    let mut i: usize = 0;
    while i < b.len()
        invariant
            i <= b@.len(),
            b@ == map.bindings@,
            forall|j: int| 0 <= j < i ==> !#[trigger] chord_starts_with(b@[j].0, *pressed),
        decreases b@.len() - i,
    {
        match b[i].0 {
            Shortcut::Chord(p, s) => {
                if p == *pressed {
                    assert(chord_starts_with(b@[i as int].0, *pressed));
                    return true;
                }
            },
            Shortcut::Direct(_) => {},
        }
        i = i + 1;
    }
    false
}

/// The command of the chord `prefix` then `pressed`, ignoring in `pressed`
/// the modifiers the prefix already held.
pub fn chord_command(map: &ShortcutMap, prefix: &KeyCombo, pressed: &KeyCombo) -> (res: Option<
    String,
>)
    ensures
        res == spec_chord_command(*map, *prefix, *pressed),
{
    let second = effective_chord_second(prefix, pressed);
    let b = &map.bindings;
    let mut i: usize = b.len();
    let mut found: Option<String> = None;
    while i > 0
        invariant
            i <= b@.len(),
            found == first_chord_from(b@, *prefix, second, i as int),
        decreases i,
    {
        i = i - 1;
        let entry = &b[i];
        if entry.0 == Shortcut::Chord(*prefix, second) {
            found = Some(entry.1.clone());
        }
    }
    found
}

/// What the native key monitor does with a key press.
#[derive(Clone, Debug, PartialEq, Eq)]
pub enum KeyAction {
    /// Swallow the press, issuing the command if there is one.
    Consume(Option<String>),
    /// Let the press through to the focused view.
    PassThrough,
}

/// A chord prefix waiting for its second half, with the monotonic time in
/// nanoseconds at which it was pressed.
pub type PendingPrefix = Option<(KeyCombo, u64)>;

/// Whether more than `timeout_ms` passed from `started` to `now` (a clock that
/// went backwards counts as no time).
pub open spec fn timed_out(started: u64, now_ns: u64, timeout_ms: u64) -> bool {
    now_ns >= started && (now_ns - started) > timeout_ms * 1_000_000
}

fn exceeds_timeout(started: u64, now_ns: u64, timeout_ms: u64) -> (res: bool)
    ensures
        res == timed_out(started, now_ns, timeout_ms),
{
    if now_ns < started {
        false
    } else {
        let elapsed: u128 = (now_ns - started) as u128;
        elapsed > timeout_ms as u128 * 1_000_000
    }
}

/// The decision of the native key monitor and the pending prefix after it.
///
/// An expired prefix is dropped. A pending prefix completes a chord when the
/// press is its second half, and is dropped otherwise. A direct binding is
/// consumed when ctrl, alt or super is held and passed through otherwise. A
/// press that starts a chord becomes the pending prefix and is consumed.
pub open spec fn spec_decide(
    map: ShortcutMap,
    pending: PendingPrefix,
    c: KeyCombo,
    now_ns: u64,
) -> (PendingPrefix, KeyAction) {
    let live = match pending {
        Some(p) => if timed_out(p.1, now_ns, map.chord_timeout_ms) {
            None
        } else {
            Some(p)
        },
        None => None,
    };
    let chord = match live {
        Some(p) => spec_chord_command(map, p.0, c),
        None => None,
    };
    if chord is Some {
        (None, KeyAction::Consume(chord))
    } else if spec_direct_command(map, c) is Some {
        if has_command_modifier(c) {
            (None, KeyAction::Consume(spec_direct_command(map, c)))
        } else {
            (None, KeyAction::PassThrough)
        }
    } else if spec_has_chord_prefix(map.bindings@, c) {
        (Some((c, now_ns)), KeyAction::Consume(None))
    } else {
        (None, KeyAction::PassThrough)
    }
}

proof fn lemma_first_direct_at(b: Seq<(Shortcut, String)>, pressed: KeyCombo, k: int, i: int)
    requires
        0 <= k <= i < b.len(),
        b[i].0 == Shortcut::Direct(pressed),
        forall|j: int| 0 <= j < i ==> #[trigger] b[j].0 != Shortcut::Direct(pressed),
    ensures
        first_direct_from(b, pressed, k) == Some(b[i].1),
    decreases i - k,
{
    if k < i {
        lemma_first_direct_at(b, pressed, k + 1, i);
    }
}

/// A direct binding answers its press when no chord completes: with ctrl,
/// alt or super held the press is swallowed and issues the command of the
/// first direct binding of that combo; with none of them held the press goes
/// through to the page and issues nothing. No prefix is left pending.
pub proof fn law_direct_binding_with_command_modifier_is_consumed(
    map: ShortcutMap,
    pending: PendingPrefix,
    c: KeyCombo,
    now_ns: u64,
    i: int,
)
    requires
        0 <= i < map.bindings@.len(),
        map.bindings@[i].0 == Shortcut::Direct(c),
        forall|j: int| 0 <= j < i ==> #[trigger] map.bindings@[j].0 != Shortcut::Direct(c),
        pending matches Some(p) ==> spec_chord_command(map, p.0, c) is None,
    ensures
        c.modifiers.ctrl ==> spec_decide(map, pending, c, now_ns) == (
            None::<(KeyCombo, u64)>,
            KeyAction::Consume(Some(map.bindings@[i].1)),
        ),
        c.modifiers.alt ==> spec_decide(map, pending, c, now_ns) == (
            None::<(KeyCombo, u64)>,
            KeyAction::Consume(Some(map.bindings@[i].1)),
        ),
        c.modifiers.super_key ==> spec_decide(map, pending, c, now_ns) == (
            None::<(KeyCombo, u64)>,
            KeyAction::Consume(Some(map.bindings@[i].1)),
        ),
        !c.modifiers.ctrl && !c.modifiers.alt && !c.modifiers.super_key ==> spec_decide(
            map,
            pending,
            c,
            now_ns,
        ) == (None::<(KeyCombo, u64)>, KeyAction::PassThrough),
{
    lemma_first_direct_at(map.bindings@, c, 0, i);
}

proof fn lemma_first_chord_at(b: Seq<(Shortcut, String)>, prefix: KeyCombo, second: KeyCombo, k: int, i: int)
    requires
        0 <= k <= i < b.len(),
        b[i].0 == Shortcut::Chord(prefix, second),
        forall|j: int| 0 <= j < i ==> #[trigger] b[j].0 != Shortcut::Chord(prefix, second),
    ensures
        first_chord_from(b, prefix, second, k) == Some(b[i].1),
    decreases i - k,
{
    if k < i {
        lemma_first_chord_at(b, prefix, second, k + 1, i);
    }
}

proof fn lemma_no_direct(b: Seq<(Shortcut, String)>, pressed: KeyCombo, k: int)
    requires
        0 <= k,
        forall|j: int| 0 <= j < b.len() ==> #[trigger] b[j].0 != Shortcut::Direct(pressed),
    ensures
        first_direct_from(b, pressed, k) is None,
    decreases b.len() - k,
{
    if k < b.len() {
        lemma_no_direct(b, pressed, k + 1);
    }
}

/// Leader chords: a press that completes the chord of a prefix still in
/// time issues the command of the first chord binding for the prefix and
/// this press (the modifiers the prefix held need not be held again) and
/// ends the chord. A press with no direct binding that starts some chord is
/// swallowed and waits as the prefix. A press bound to nothing, with no
/// prefix waiting, goes through to the page.
pub proof fn law_chords_complete_start_or_pass(
    map: ShortcutMap,
    pending: PendingPrefix,
    c: KeyCombo,
    now_ns: u64,
    i: int,
)
    ensures
        ({
            let b = map.bindings@;
            pending matches Some(p) && !timed_out(p.1, now_ns, map.chord_timeout_ms) && 0 <= i < b.len()
                && b[i].0 == Shortcut::Chord(p.0, spec_effective_second(p.0, c)) && (forall|j: int|
                0 <= j < i ==> #[trigger] b[j].0 != Shortcut::Chord(p.0, spec_effective_second(p.0, c)))
                ==> spec_decide(map, pending, c, now_ns) == (
                None::<(KeyCombo, u64)>,
                KeyAction::Consume(Some(b[i].1)),
            )
        }),
        ({
            let b = map.bindings@;
            pending is None && (forall|j: int| 0 <= j < b.len() ==> #[trigger] b[j].0 != Shortcut::Direct(c))
                && 0 <= i < b.len() && chord_starts_with(b[i].0, c) ==> spec_decide(map, pending, c, now_ns)
                == (Some((c, now_ns)), KeyAction::Consume(None))
        }),
        ({
            let b = map.bindings@;
            pending is None && (forall|j: int|
                0 <= j < b.len() ==> #[trigger] b[j].0 != Shortcut::Direct(c) && !chord_starts_with(b[j].0, c))
                ==> spec_decide(map, pending, c, now_ns) == (None::<(KeyCombo, u64)>, KeyAction::PassThrough)
        }),
{
    let b = map.bindings@;
    if let Some(p) = pending {
        if 0 <= i < b.len() && b[i].0 == Shortcut::Chord(p.0, spec_effective_second(p.0, c)) && (forall|j: int|
            0 <= j < i ==> #[trigger] b[j].0 != Shortcut::Chord(p.0, spec_effective_second(p.0, c))) {
            lemma_first_chord_at(b, p.0, spec_effective_second(p.0, c), 0, i);
        }
    }
    if pending is None && (forall|j: int| 0 <= j < b.len() ==> #[trigger] b[j].0 != Shortcut::Direct(c)) {
        lemma_no_direct(b, c, 0);
    }
}

/// A prefix that waited too long is as if none were pending.
pub proof fn law_expired_prefix_is_forgotten(
    map: ShortcutMap,
    prefix: KeyCombo,
    started: u64,
    c: KeyCombo,
    now_ns: u64,
)
    requires
        timed_out(started, now_ns, map.chord_timeout_ms),
    ensures
        spec_decide(map, Some((prefix, started)), c, now_ns) == spec_decide(map, None, c, now_ns),
{
}

/// A press leaves a prefix pending only when it starts a chord, and then it
/// is consumed without a command; a press that issues a command leaves
/// nothing pending.
pub proof fn law_pending_only_after_prefix(map: ShortcutMap, pending: PendingPrefix, c: KeyCombo, now_ns: u64)
    ensures
        spec_decide(map, pending, c, now_ns).0 is Some ==> spec_decide(map, pending, c, now_ns).0
            == Some((c, now_ns)) && spec_decide(map, pending, c, now_ns).1 == KeyAction::Consume(None),
        spec_decide(map, pending, c, now_ns).1 matches KeyAction::Consume(Some(_)) ==> spec_decide(
            map,
            pending,
            c,
            now_ns,
        ).0 is None,
{
}

/// Decides what the native key monitor does with `c` (see `spec_decide`).
pub fn decide(map: &ShortcutMap, pending: &mut PendingPrefix, c: KeyCombo, now_ns: u64) -> (res:
    KeyAction)
    ensures
        *final(pending) == spec_decide(*map, *old(pending), c, now_ns).0,
        res == spec_decide(*map, *old(pending), c, now_ns).1,
{
    match *pending {
        Some((_, started)) => {
            if exceeds_timeout(started, now_ns, map.chord_timeout_ms) {
                *pending = None;
            }
        },
        None => {},
    }
    match *pending {
        Some((prefix, _)) => {
            let cmd = chord_command(map, &prefix, &c);
            *pending = None;
            if cmd.is_some() {
                return KeyAction::Consume(cmd);
            }
        },
        None => {},
    }
    let direct = direct_command(map, &c);
    if direct.is_some() {
        if c.modifiers.ctrl || c.modifiers.alt || c.modifiers.super_key {
            return KeyAction::Consume(direct);
        }
        return KeyAction::PassThrough;
    }
    if has_chord_prefix(map, &c) {
        *pending = Some((c, now_ns));
        return KeyAction::Consume(None);
    }
    KeyAction::PassThrough
}

/// Chord state kept between frames by the in-app key handler, and whether
/// keyboard input to web content is suppressed while a prefix is pending.
#[derive(Clone, Copy, Debug, PartialEq, Eq)]
pub struct ChordState {
    pub pending_prefix: PendingPrefix,
    pub suppress_web_input: bool,
}

impl ChordState {
    /// No pending prefix and nothing suppressed.
    pub fn new() -> (s: Self)
        ensures
            s.pending_prefix.is_none(),
            !s.suppress_web_input,
    {
        ChordState { pending_prefix: None, suppress_web_input: false }
    }
}

/// The combos of the non-modifier keys pressed this frame, with the current modifiers.
pub open spec fn frame_combos(just_pressed: Seq<KeyCode>, m: Modifiers) -> Seq<KeyCombo> {
    just_pressed.filter(|k: KeyCode| !spec_is_modifier_key(k)).map_values(
        |k: KeyCode| KeyCombo { key: k, modifiers: m },
    )
}

/// The command of the first combo in `cs[i..]` that completes the chord of `prefix`.
pub open spec fn first_completion_from(
    map: ShortcutMap,
    prefix: KeyCombo,
    cs: Seq<KeyCombo>,
    i: int,
) -> Option<String>
    decreases cs.len() - i,
{
    if i >= cs.len() || i < 0 {
        None
    } else if spec_chord_command(map, prefix, cs[i]) is Some {
        spec_chord_command(map, prefix, cs[i])
    } else {
        first_completion_from(map, prefix, cs, i + 1)
    }
}

/// The command of the first combo in `cs[j..]`, other than `cs[skip]`, that
/// completes the chord of `prefix`.
pub open spec fn first_completion_skipping(
    map: ShortcutMap,
    prefix: KeyCombo,
    cs: Seq<KeyCombo>,
    skip: int,
    j: int,
) -> Option<String>
    decreases cs.len() - j,
{
    if j >= cs.len() || j < 0 {
        None
    } else if j != skip && spec_chord_command(map, prefix, cs[j]) is Some {
        spec_chord_command(map, prefix, cs[j])
    } else {
        first_completion_skipping(map, prefix, cs, skip, j + 1)
    }
}

/// The effect of the combos `cs[i..]` on a frame with no live prefix: the first
/// direct binding issues its command; the first chord prefix becomes pending
/// (suppressing web input), completed at once by another combo of the same
/// frame when one is its second half.
pub open spec fn scan_frame_from(map: ShortcutMap, cs: Seq<KeyCombo>, i: int, now_ns: u64) -> (
    ChordState,
    Option<String>,
)
    decreases cs.len() - i,
{
    if i >= cs.len() || i < 0 {
        (ChordState { pending_prefix: None, suppress_web_input: false }, None)
    } else if spec_direct_command(map, cs[i]) is Some {
        (
            ChordState { pending_prefix: None, suppress_web_input: false },
            spec_direct_command(map, cs[i]),
        )
    } else if spec_has_chord_prefix(map.bindings@, cs[i]) {
        let done = first_completion_skipping(map, cs[i], cs, i, 0);
        if done is Some {
            (ChordState { pending_prefix: None, suppress_web_input: false }, done)
        } else {
            (
                ChordState { pending_prefix: Some((cs[i], now_ns)), suppress_web_input: true },
                None,
            )
        }
    } else {
        scan_frame_from(map, cs, i + 1, now_ns)
    }
}

/// The chord state and issued command after one frame of the in-app key
/// handler.
///
/// An expired prefix is dropped first. A live prefix is completed by the first
/// combo of the frame that is its second half; a frame with no key keeps it;
/// any other frame drops it and goes on as a frame with no prefix.
pub open spec fn spec_process_frame(
    map: ShortcutMap,
    state: ChordState,
    just_pressed: Seq<KeyCode>,
    m: Modifiers,
    now_ns: u64,
) -> (ChordState, Option<String>) {
    let cs = frame_combos(just_pressed, m);
    let expired = match state.pending_prefix {
        Some(p) => timed_out(p.1, now_ns, map.chord_timeout_ms),
        None => false,
    };
    let s1 = if expired {
        ChordState { pending_prefix: None, suppress_web_input: false }
    } else {
        state
    };
    match s1.pending_prefix {
        Some(p) => {
            let done = first_completion_from(map, p.0, cs, 0);
            if done is Some {
                (ChordState { pending_prefix: None, suppress_web_input: false }, done)
            } else if cs.len() == 0 {
                (s1, None)
            } else {
                scan_frame_from(map, cs, 0, now_ns)
            }
        },
        None => {
            let r = scan_frame_from(map, cs, 0, now_ns);
            if r.1 is None && r.0.pending_prefix is None {
                (s1, None)
            } else {
                r
            }
        },
    }
}

fn frame_combos_exec(just_pressed: &Vec<KeyCode>, m: Modifiers) -> (res: Vec<KeyCombo>)
    ensures
        res@ == frame_combos(just_pressed@, m),
{
    let ghost pred = |k: KeyCode| !spec_is_modifier_key(k);
    let ghost f = |k: KeyCode| KeyCombo { key: k, modifiers: m };
    let mut out: Vec<KeyCombo> = Vec::new();
    let mut i: usize = 0;
    while i < just_pressed.len()
        invariant
            i <= just_pressed@.len(),
            pred == (|k: KeyCode| !spec_is_modifier_key(k)),
            f == (|k: KeyCode| KeyCombo { key: k, modifiers: m }),
            out@ == just_pressed@.subrange(0, i as int).filter(pred).map_values(f),
        decreases just_pressed@.len() - i,
    {
        let k = just_pressed[i];
        proof {
            let s = just_pressed@;
            assert(s.subrange(0, i as int + 1) =~= s.subrange(0, i as int).push(k));
            s.subrange(0, i as int).lemma_filter_push(k, pred);
            s.subrange(0, i as int).filter(pred).lemma_push_map_commute(f, k);
        }
        if !is_modifier_key(k) {
            out.push(KeyCombo { key: k, modifiers: m });
        }
        proof {
            let s = just_pressed@;
            let pre = s.subrange(0, i as int).filter(pred);
            if pred(k) {
                assert(f(k) == (KeyCombo { key: k, modifiers: m }));
                assert(out@ =~= s.subrange(0, i as int + 1).filter(pred).map_values(f));
            } else {
                assert(s.subrange(0, i as int + 1).filter(pred) == pre);
            }
        }
        i = i + 1;
    }
    proof {
        assert(just_pressed@.subrange(0, just_pressed@.len() as int) =~= just_pressed@);
    }
    out
}

fn first_completion(map: &ShortcutMap, prefix: &KeyCombo, cs: &Vec<KeyCombo>, skip: usize, use_skip: bool) -> (res: Option<String>)
    ensures
        use_skip ==> res == first_completion_skipping(*map, *prefix, cs@, skip as int, 0),
        !use_skip ==> res == first_completion_from(*map, *prefix, cs@, 0),
{
    let mut j: usize = cs.len();
    let mut found: Option<String> = None;
    while j > 0
        invariant
            j <= cs@.len(),
            use_skip ==> found == first_completion_skipping(*map, *prefix, cs@, skip as int, j as int),
            !use_skip ==> found == first_completion_from(*map, *prefix, cs@, j as int),
        decreases j,
    {
        j = j - 1;
        if !(use_skip && j == skip) {
            let cmd = chord_command(map, prefix, &cs[j]);
            if cmd.is_some() {
                found = cmd;
            }
        }
    }
    found
}

/// One frame of the in-app key handler (see `spec_process_frame`): updates the
/// chord state and returns the command to issue, if any.
pub fn process_frame(
    map: &ShortcutMap,
    state: &mut ChordState,
    just_pressed: &Vec<KeyCode>,
    modifiers: Modifiers,
    now_ns: u64,
) -> (res: Option<String>)
    ensures
        *final(state) == spec_process_frame(*map, *old(state), just_pressed@, modifiers, now_ns).0,
        res == spec_process_frame(*map, *old(state), just_pressed@, modifiers, now_ns).1,
{
    let ghost s0 = *state;
    match state.pending_prefix {
        Some((_, started)) => {
            if exceeds_timeout(started, now_ns, map.chord_timeout_ms) {
                state.pending_prefix = None;
                state.suppress_web_input = false;
            }
        },
        None => {},
    }
    let cs = frame_combos_exec(just_pressed, modifiers);
    let had_prefix = state.pending_prefix.is_some();
    match state.pending_prefix {
        Some((prefix, _)) => {
            let done = first_completion(map, &prefix, &cs, 0, false);
            if done.is_some() {
                state.pending_prefix = None;
                state.suppress_web_input = false;
                return done;
            }
            if cs.len() == 0 {
                return None;
            }
            state.pending_prefix = None;
            state.suppress_web_input = false;
        },
        None => {},
    }
    let ghost s1 = *state;
    let ghost target = spec_process_frame(*map, s0, just_pressed@, modifiers, now_ns);
    proof {
        let r = scan_frame_from(*map, cs@, 0, now_ns);
        if had_prefix {
            assert(target == r);
        } else {
            assert(target == (if r.1 is None && r.0.pending_prefix is None {
                (s1, None)
            } else {
                r
            }));
        }
    }
    let mut i: usize = 0;
    while i < cs.len()
        invariant
            i <= cs@.len(),
            *state == s1,
            s1.pending_prefix.is_none(),
            !had_prefix ==> s1 == (if match s0.pending_prefix {
                Some(p) => timed_out(p.1, now_ns, map.chord_timeout_ms),
                None => false,
            } {
                ChordState { pending_prefix: None, suppress_web_input: false }
            } else {
                s0
            }),
            had_prefix ==> s1 == (ChordState { pending_prefix: None, suppress_web_input: false }),
            scan_frame_from(*map, cs@, 0, now_ns) == scan_frame_from(*map, cs@, i as int, now_ns),
            had_prefix ==> target == scan_frame_from(*map, cs@, 0, now_ns),
            !had_prefix ==> target == (if scan_frame_from(*map, cs@, 0, now_ns).1 is None
                && scan_frame_from(*map, cs@, 0, now_ns).0.pending_prefix is None {
                (s1, None)
            } else {
                scan_frame_from(*map, cs@, 0, now_ns)
            }),
            target == spec_process_frame(*map, s0, just_pressed@, modifiers, now_ns),
            s0 == *old(state),
        decreases cs@.len() - i,
    {
        let pressed = cs[i];
        let direct = direct_command(map, &pressed);
        if direct.is_some() {
            assert(scan_frame_from(*map, cs@, i as int, now_ns) == (ChordState { pending_prefix: None, suppress_web_input: false }, direct));
            state.pending_prefix = None;
            state.suppress_web_input = false;
            return direct;
        }
        if has_chord_prefix(map, &pressed) {
            let done = first_completion(map, &pressed, &cs, i, true);
            if done.is_some() {
                state.pending_prefix = None;
                state.suppress_web_input = false;
                return done;
            }
            state.pending_prefix = Some((pressed, now_ns));
            state.suppress_web_input = true;
            return None;
        }
        i = i + 1;
    }
    None
}

} // verus!
