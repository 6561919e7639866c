//! Keyboard button state as the frame loop reads it, and the in-app shortcut
//! handler that runs on it once per frame.
use crate::keys::KeyCode;
use crate::shortcut::{process_frame, spec_process_frame, ChordState, Modifiers, ShortcutMap};
use vstd::prelude::*;

verus! {

/// Whether `k` occurs in `v`.
fn contains_key(v: &Vec<KeyCode>, k: KeyCode) -> (res: bool)
    ensures
        res == v@.contains(k),
{
    let mut i: usize = 0;
    while i < v.len()
        invariant
            i <= v@.len(),
            forall|j: int| 0 <= j < i ==> v@[j] != k,
        decreases v@.len() - i,
    {
        if v[i] == k {
            return true;
        }
        i = i + 1;
    }
    false
}

/// The first index of `k` in `v`, which holds it.
fn first_index_of(v: &Vec<KeyCode>, k: KeyCode) -> (i: usize)
    requires
        v@.contains(k),
    ensures
        v@.index_of_first(k) == Some(i as int),
        i < v@.len(),
        v@[i as int] == k,
{
    proof {
        v@.index_of_first_ensures(k);
    }
    let mut i: usize = 0;
    while i < v.len()
        invariant
            i <= v@.len(),
            v@.contains(k),
            forall|j: int| 0 <= j < i ==> v@[j] != k,
            match v@.index_of_first(k) {
                Some(index) => {
                    &&& 0 <= index < v@.len()
                    &&& v@[index] == k
                    &&& forall|j: int| 0 <= j < index < v@.len() ==> v@[j] != k
                },
                None => false,
            },
        decreases v@.len() - i,
    {
        if v[i] == k {
            return i;
        }
        i = i + 1;
    }
    i
}

/// Buttons held, pressed since the last clear and released since the last
/// clear, each kept once and in the order it arrived.
#[derive(Clone, Debug)]
pub struct KeyboardInput {
    pub pressed: Vec<KeyCode>,
    pub just_pressed: Vec<KeyCode>,
    pub just_released: Vec<KeyCode>,
}

/// `s` with `k` added at the end unless it holds it already.
pub open spec fn insert_once(s: Seq<KeyCode>, k: KeyCode) -> Seq<KeyCode> {
    if s.contains(k) {
        s
    } else {
        s.push(k)
    }
}

/// `s` without any entry of `k`, the others in order.
pub open spec fn without_key(s: Seq<KeyCode>, k: KeyCode) -> Seq<KeyCode>
    decreases s.len(),
{
    if s.len() == 0 {
        s
    } else if s.last() == k {
        without_key(s.drop_last(), k)
    } else {
        without_key(s.drop_last(), k).push(s.last())
    }
}

proof fn lemma_without_key(s: Seq<KeyCode>, k: KeyCode)
    ensures
        !without_key(s, k).contains(k),
        forall|x: KeyCode| x != k ==> (#[trigger] without_key(s, k).contains(x) <==> s.contains(x)),
        s.no_duplicates() ==> without_key(s, k).no_duplicates(),
    decreases s.len(),
{
    if s.len() > 0 {
        let t = s.drop_last();
        lemma_without_key(t, k);
        let r = without_key(t, k);
        assert forall|x: KeyCode| #[trigger] s.contains(x) <==> t.contains(x) || x == s.last() by {
            if s.contains(x) {
                let j = choose|j: int| 0 <= j < s.len() && s[j] == x;
                if j < s.len() - 1 {
                    assert(t[j] == x);
                }
            }
            if t.contains(x) {
                let j = choose|j: int| 0 <= j < t.len() && t[j] == x;
                assert(s[j] == x);
            }
            if x == s.last() {
                assert(s[s.len() - 1] == x);
            }
        }
        if s.last() != k {
            assert forall|x: KeyCode| #[trigger] r.push(s.last()).contains(x) <==> r.contains(x) || x == s.last() by {
                if r.push(s.last()).contains(x) {
                    let j = choose|j: int| 0 <= j < r.len() + 1 && r.push(s.last())[j] == x;
                    if j < r.len() {
                        assert(r[j] == x);
                    }
                }
                if r.contains(x) {
                    let j = choose|j: int| 0 <= j < r.len() && r[j] == x;
                    assert(r.push(s.last())[j] == x);
                }
                if x == s.last() {
                    assert(r.push(s.last())[r.len() as int] == x);
                }
            }
            if s.no_duplicates() {
                assert(t.no_duplicates());
                assert(!t.contains(s.last())) by {
                    if t.contains(s.last()) {
                        let j = choose|j: int| 0 <= j < t.len() && t[j] == s.last();
                        assert(s[j] == s[s.len() - 1]);
                    }
                }
                assert(!r.contains(s.last()));
                assert forall|a: int, b: int|
                    0 <= a < r.len() + 1 && 0 <= b < r.len() + 1 && a != b implies r.push(s.last())[a]
                    != r.push(s.last())[b] by {
                    if a < r.len() && b == r.len() {
                        assert(r.contains(r[a]));
                    }
                    if b < r.len() && a == r.len() {
                        assert(r.contains(r[b]));
                    }
                }
            }
        } else {
            if s.no_duplicates() {
                assert(t.no_duplicates());
            }
        }
    }
}

impl KeyboardInput {
    /// Nothing held, pressed or released.
    pub fn new() -> (kb: Self)
        ensures
            kb.pressed@.len() == 0,
            kb.just_pressed@.len() == 0,
            kb.just_released@.len() == 0,
    {
        KeyboardInput { pressed: Vec::new(), just_pressed: Vec::new(), just_released: Vec::new() }
    }

    /// Presses `k`: a key not yet held becomes held and just pressed; a held
    /// key changes nothing.
    pub fn press(&mut self, k: KeyCode)
        ensures
            old(self).pressed@.contains(k) ==> *final(self) == *old(self),
            !old(self).pressed@.contains(k) ==> {
                &&& final(self).pressed@ == old(self).pressed@.push(k)
                &&& final(self).just_pressed@ == insert_once(old(self).just_pressed@, k)
                &&& final(self).just_released@ == old(self).just_released@
            },
            old(self).pressed@.no_duplicates() ==> final(self).pressed@.no_duplicates(),
            old(self).just_pressed@.no_duplicates() ==> final(self).just_pressed@.no_duplicates(),
    {
        if !contains_key(&self.pressed, k) {
            self.pressed.push(k);
            if !contains_key(&self.just_pressed, k) {
                self.just_pressed.push(k);
            }
        }
    }

    /// Releases `k`: a held key stops being held (every entry of it goes)
    /// and becomes just released; a key not held changes nothing. The other
    /// keys keep their state.
    pub fn release(&mut self, k: KeyCode)
        ensures
            !old(self).pressed@.contains(k) ==> *final(self) == *old(self),
            old(self).pressed@.contains(k) ==> {
                &&& final(self).pressed@ == without_key(old(self).pressed@, k)
                &&& final(self).just_pressed@ == old(self).just_pressed@
                &&& final(self).just_released@ == insert_once(old(self).just_released@, k)
            },
            !final(self).pressed@.contains(k),
            forall|x: KeyCode| x != k ==> (#[trigger] final(self).pressed@.contains(x) <==> old(
                self,
            ).pressed@.contains(x)),
            old(self).pressed@.no_duplicates() ==> final(self).pressed@.no_duplicates(),
            old(self).just_released@.no_duplicates() ==> final(self).just_released@.no_duplicates(),
    {
        if contains_key(&self.pressed, k) {
            let mut kept: Vec<KeyCode> = Vec::new();
            let mut i: usize = 0;
            while i < self.pressed.len()
                invariant
                    i <= self.pressed@.len(),
                    kept@ == without_key(self.pressed@.subrange(0, i as int), k),
                decreases self.pressed@.len() - i,
            {
                proof {
                    assert(self.pressed@.subrange(0, i as int + 1).drop_last() =~= self.pressed@.subrange(
                        0,
                        i as int,
                    ));
                }
                if self.pressed[i] != k {
                    kept.push(self.pressed[i]);
                }
                i = i + 1;
            }
            proof {
                assert(self.pressed@.subrange(0, self.pressed@.len() as int) =~= self.pressed@);
                lemma_without_key(self.pressed@, k);
            }
            self.pressed = kept;
            if !contains_key(&self.just_released, k) {
                self.just_released.push(k);
            }
        }
    }

    /// Ends an input frame: nothing is just pressed or just released any more.
    pub fn clear(&mut self)
        ensures
            final(self).pressed@ == old(self).pressed@,
            final(self).just_pressed@.len() == 0,
            final(self).just_released@.len() == 0,
    {
        self.just_pressed.clear();
        self.just_released.clear();
    }
}

/// Whether either key of a pair is held or was just pressed.
pub open spec fn either_down(kb: KeyboardInput, left: KeyCode, right: KeyCode) -> bool {
    kb.pressed@.contains(left) || kb.pressed@.contains(right) || kb.just_pressed@.contains(left)
        || kb.just_pressed@.contains(right)
}

/// The modifiers held or just pressed this frame.
pub open spec fn spec_current_modifiers(kb: KeyboardInput) -> Modifiers {
    Modifiers {
        ctrl: either_down(kb, KeyCode::ControlLeft, KeyCode::ControlRight),
        shift: either_down(kb, KeyCode::ShiftLeft, KeyCode::ShiftRight),
        alt: either_down(kb, KeyCode::AltLeft, KeyCode::AltRight),
        super_key: either_down(kb, KeyCode::SuperLeft, KeyCode::SuperRight),
    }
}

fn down(kb: &KeyboardInput, left: KeyCode, right: KeyCode) -> (res: bool)
    ensures
        res == either_down(*kb, left, right),
{
    contains_key(&kb.pressed, left) || contains_key(&kb.pressed, right) || contains_key(
        &kb.just_pressed,
        left,
    ) || contains_key(&kb.just_pressed, right)
}

/// The modifiers held or just pressed this frame (see `spec_current_modifiers`).
pub fn read_current_modifiers(kb: &KeyboardInput) -> (m: Modifiers)
    ensures
        m == spec_current_modifiers(*kb),
{
    Modifiers {
        ctrl: down(kb, KeyCode::ControlLeft, KeyCode::ControlRight),
        shift: down(kb, KeyCode::ShiftLeft, KeyCode::ShiftRight),
        alt: down(kb, KeyCode::AltLeft, KeyCode::AltRight),
        super_key: down(kb, KeyCode::SuperLeft, KeyCode::SuperRight),
    }
}

/// The in-app shortcut handler with its inputs: the shortcut map, the chord
/// state between frames, the keyboard, and the commands issued so far.
#[derive(Clone, Debug)]
pub struct ShortcutApp {
    pub map: ShortcutMap,
    pub chord: ChordState,
    pub keyboard: KeyboardInput,
    pub issued: Vec<String>,
}

impl ShortcutApp {
    /// A handler for `map` with no pending chord, no key down and nothing issued.
    pub fn new(map: ShortcutMap) -> (app: Self)
        ensures
            app.map == map,
            app.chord.pending_prefix is None,
            !app.chord.suppress_web_input,
            app.keyboard.pressed@.len() == 0,
            app.keyboard.just_pressed@.len() == 0,
            app.keyboard.just_released@.len() == 0,
            app.issued@.len() == 0,
    {
        ShortcutApp {
            map,
            chord: ChordState::new(),
            keyboard: KeyboardInput::new(),
            issued: Vec::new(),
        }
    }

    /// Runs the handler for one frame at `now_ns` on the keys just pressed and
    /// the modifiers down, appending the issued command, if any.
    pub fn update(&mut self, now_ns: u64)
        ensures
            ({
                let r = spec_process_frame(
                    old(self).map,
                    old(self).chord,
                    old(self).keyboard.just_pressed@,
                    spec_current_modifiers(old(self).keyboard),
                    now_ns,
                );
                &&& final(self).chord == r.0
                &&& final(self).issued@ == match r.1 {
                    Some(c) => old(self).issued@.push(c),
                    None => old(self).issued@,
                }
            }),
            final(self).map == old(self).map,
            final(self).keyboard == old(self).keyboard,
    {
        let m = read_current_modifiers(&self.keyboard);
        let cmd = process_frame(&self.map, &mut self.chord, &self.keyboard.just_pressed, m, now_ns);
        match cmd {
            Some(c) => self.issued.push(c),
            None => {},
        }
    }
}

/// Presses `key` on the handler's keyboard (see `KeyboardInput::press`).
pub fn press(app: &mut ShortcutApp, key: KeyCode)
    ensures
        old(app).keyboard.pressed@.contains(key) ==> final(app).keyboard == old(app).keyboard,
        !old(app).keyboard.pressed@.contains(key) ==> {
            &&& final(app).keyboard.pressed@ == old(app).keyboard.pressed@.push(key)
            &&& final(app).keyboard.just_pressed@ == insert_once(
                old(app).keyboard.just_pressed@,
                key,
            )
            &&& final(app).keyboard.just_released@ == old(app).keyboard.just_released@
        },
        final(app).map == old(app).map,
        final(app).chord == old(app).chord,
        final(app).issued == old(app).issued,
{
    app.keyboard.press(key);
}

/// Releases `key` on the handler's keyboard (see `KeyboardInput::release`).
pub fn release(app: &mut ShortcutApp, key: KeyCode)
    ensures
        !old(app).keyboard.pressed@.contains(key) ==> final(app).keyboard == old(app).keyboard,
        old(app).keyboard.pressed@.contains(key) ==> {
            &&& final(app).keyboard.pressed@ == without_key(old(app).keyboard.pressed@, key)
            &&& final(app).keyboard.just_pressed@ == old(app).keyboard.just_pressed@
            &&& final(app).keyboard.just_released@ == insert_once(
                old(app).keyboard.just_released@,
                key,
            )
        },
        !final(app).keyboard.pressed@.contains(key),
        final(app).keyboard.just_released@.contains(key) <==> (old(
            app,
        ).keyboard.just_released@.contains(key) || old(app).keyboard.pressed@.contains(key)),
        final(app).keyboard.just_pressed@ == old(app).keyboard.just_pressed@,
        forall|x: KeyCode|
            x != key ==> (#[trigger] final(app).keyboard.pressed@.contains(x) <==> old(
                app,
            ).keyboard.pressed@.contains(x)) && (final(app).keyboard.just_released@.contains(x)
                <==> old(app).keyboard.just_released@.contains(x)),
        final(app).map == old(app).map,
        final(app).chord == old(app).chord,
        final(app).issued == old(app).issued,
{
    app.keyboard.release(key);
    proof {
        let o = old(app).keyboard.just_released@;
        if old(app).keyboard.pressed@.contains(key) && !o.contains(key) {
            assert forall|x: KeyCode| #[trigger] o.push(key).contains(x) <==> o.contains(x) || x == key by {
                if o.push(key).contains(x) {
                    let j = choose|j: int| 0 <= j < o.len() + 1 && o.push(key)[j] == x;
                    if j < o.len() {
                        assert(o[j] == x);
                    }
                }
                if o.contains(x) {
                    let j = choose|j: int| 0 <= j < o.len() && o[j] == x;
                    assert(o.push(key)[j] == x);
                }
                if x == key {
                    assert(o.push(key)[o.len() as int] == x);
                }
            }
        }
    }
}

/// Ends the input frame of the handler's keyboard (see `KeyboardInput::clear`).
pub fn clear_input_frame(app: &mut ShortcutApp)
    ensures
        final(app).keyboard.pressed@ == old(app).keyboard.pressed@,
        final(app).keyboard.just_pressed@.len() == 0,
        final(app).keyboard.just_released@.len() == 0,
        final(app).map == old(app).map,
        final(app).chord == old(app).chord,
        final(app).issued == old(app).issued,
{
    app.keyboard.clear();
}

} // verus!
