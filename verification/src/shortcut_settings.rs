//! Shortcut settings as the user writes them, and the shortcut map built from
//! them over the default bindings.
use crate::keys::KeyCode;
use crate::shortcut::{KeyCombo, Modifiers, Shortcut, ShortcutMap};
use vstd::prelude::*;

verus! {

/// A key name resolved to its key, with whether typing it needs shift
/// (`%` is shift+5).
#[derive(Clone, Copy, Debug, PartialEq, Eq, Structural)]
pub struct ResolvedKey {
    pub key: KeyCode,
    pub implicit_shift: bool,
}

/// A combo as configured: its key (`None` for a key name that names no key)
/// and the modifiers asked for.
#[derive(Clone, Copy, Debug, PartialEq, Eq, Structural)]
pub struct KeyComboDef {
    pub key: Option<ResolvedKey>,
    pub ctrl: bool,
    pub shift: bool,
    pub alt: bool,
    pub super_key: bool,
}

/// A configured binding: one combo, a prefix and a second combo, or a second
/// combo after the configured leader.
#[derive(Clone, Copy, Debug, PartialEq, Eq, Structural)]
pub enum ShortcutDef {
    Direct(KeyComboDef),
    Chord(KeyComboDef, KeyComboDef),
    Leader(KeyComboDef),
}

/// A configured binding and the id of the command it issues.
#[derive(Clone, Debug)]
pub struct ShortcutEntry {
    pub command: String,
    pub binding: ShortcutDef,
}

/// The shortcut section of the settings.
#[derive(Clone, Debug)]
pub struct ShortcutSettings {
    pub leader: KeyComboDef,
    pub chord_timeout_ms: u64,
    pub bindings: Vec<ShortcutEntry>,
}

/// The leader when none is configured: ctrl+G.
pub open spec fn spec_default_leader() -> KeyComboDef {
    KeyComboDef {
        key: Some(ResolvedKey { key: KeyCode::KeyG, implicit_shift: false }),
        ctrl: true,
        shift: false,
        alt: false,
        super_key: false,
    }
}

/// The leader when none is configured: ctrl+G.
pub fn default_leader() -> (d: KeyComboDef)
    ensures
        d == spec_default_leader(),
{
    KeyComboDef {
        key: Some(ResolvedKey { key: KeyCode::KeyG, implicit_shift: false }),
        ctrl: true,
        shift: false,
        alt: false,
        super_key: false,
    }
}

/// The chord timeout when none is configured, in milliseconds.
pub fn default_chord_timeout_ms() -> (ms: u64)
    ensures
        ms == 1000,
{
    1000
}

impl Default for ShortcutSettings {
    fn default() -> (s: Self)
        ensures
            s.leader == spec_default_leader(),
            s.chord_timeout_ms == 1000,
            s.bindings@.len() == 0,
    {
        ShortcutSettings {
            leader: default_leader(),
            chord_timeout_ms: default_chord_timeout_ms(),
            bindings: Vec::new(),
        }
    }
}

/// The combo a configured combo stands for: its key with the modifiers asked
/// for, shift added where the key name needs it.
pub open spec fn spec_to_key_combo(d: KeyComboDef) -> Option<KeyCombo> {
    match d.key {
        Some(r) => Some(
            KeyCombo {
                key: r.key,
                modifiers: Modifiers {
                    ctrl: d.ctrl,
                    shift: d.shift || r.implicit_shift,
                    alt: d.alt,
                    super_key: d.super_key,
                },
            },
        ),
        None => None,
    }
}

/// The binding a configured binding stands for, with `leader` as the prefix
/// of a leader binding; `None` where no leader is given for one, or a key
/// name names no key.
pub open spec fn spec_to_shortcut_opt(d: ShortcutDef, leader: Option<KeyCombo>) -> Option<
    Shortcut,
> {
    match d {
        ShortcutDef::Direct(c) => match spec_to_key_combo(c) {
            Some(k) => Some(Shortcut::Direct(k)),
            None => None,
        },
        ShortcutDef::Chord(p, s) => match (spec_to_key_combo(p), spec_to_key_combo(s)) {
            (Some(pk), Some(sk)) => Some(Shortcut::Chord(pk, sk)),
            _ => None,
        },
        ShortcutDef::Leader(s) => match (leader, spec_to_key_combo(s)) {
            (Some(l), Some(sk)) => Some(Shortcut::Chord(l, sk)),
            _ => None,
        },
    }
}

impl KeyComboDef {
    /// The combo this stands for (see `spec_to_key_combo`).
    pub fn to_key_combo(&self) -> (res: Option<KeyCombo>)
        ensures
            res == spec_to_key_combo(*self),
    {
        match self.key {
            Some(r) => Some(
                KeyCombo {
                    key: r.key,
                    modifiers: Modifiers {
                        ctrl: self.ctrl,
                        shift: self.shift || r.implicit_shift,
                        alt: self.alt,
                        super_key: self.super_key,
                    },
                },
            ),
            None => None,
        }
    }
}

impl ShortcutDef {
    /// The binding this stands for without a leader: a leader binding has none.
    pub fn to_shortcut(&self) -> (res: Option<Shortcut>)
        ensures
            res == spec_to_shortcut_opt(*self, None),
    {
        match self {
            ShortcutDef::Direct(c) => match c.to_key_combo() {
                Some(k) => Some(Shortcut::Direct(k)),
                None => None,
            },
            ShortcutDef::Chord(p, s) => match (p.to_key_combo(), s.to_key_combo()) {
                (Some(pk), Some(sk)) => Some(Shortcut::Chord(pk, sk)),
                _ => None,
            },
            ShortcutDef::Leader(_) => None,
        }
    }

    /// The binding this stands for, with `leader` as the prefix of a leader binding.
    pub fn to_shortcut_with_leader(&self, leader: &KeyCombo) -> (res: Option<Shortcut>)
        ensures
            res == spec_to_shortcut_opt(*self, Some(*leader)),
    {
        match self {
            ShortcutDef::Leader(s) => match s.to_key_combo() {
                Some(sk) => Some(Shortcut::Chord(*leader, sk)),
                None => None,
            },
            _ => self.to_shortcut(),
        }
    }
}

/// A default binding with its chord prefix replaced by `leader`.
pub open spec fn with_prefix(b: (Shortcut, String), leader: KeyCombo) -> (Shortcut, String) {
    match b.0 {
        Shortcut::Chord(_, s) => (Shortcut::Chord(leader, s), b.1),
        Shortcut::Direct(_) => b,
    }
}

/// The configured bindings that stand for a binding, in order, with their commands.
pub open spec fn user_bindings(entries: Seq<ShortcutEntry>, leader: Option<KeyCombo>) -> Seq<
    (Shortcut, String),
>
    decreases entries.len(),
{
    if entries.len() == 0 {
        Seq::empty()
    } else {
        let rest = user_bindings(entries.drop_last(), leader);
        match spec_to_shortcut_opt(entries.last().binding, leader) {
            Some(sc) => rest.push((sc, entries.last().command)),
            None => rest,
        }
    }
}

/// The bindings of the map built from `defaults` and the settings: with a
/// leader that names a key, every default chord takes it as prefix and the
/// configured bindings follow with leader bindings resolved; with one that
/// does not, the defaults stay and the configured bindings other than leader
/// bindings follow.
pub open spec fn spec_built_bindings(
    defaults: Seq<(Shortcut, String)>,
    settings: ShortcutSettings,
) -> Seq<(Shortcut, String)> {
    match spec_to_key_combo(settings.leader) {
        Some(l) => defaults.map_values(|b: (Shortcut, String)| with_prefix(b, l)) + user_bindings(
            settings.bindings@,
            Some(l),
        ),
        None => defaults + user_bindings(settings.bindings@, None),
    }
}

/// The shortcut map from the default bindings and, where there are settings,
/// their leader, timeout and bindings (see `spec_built_bindings`); without
/// settings the defaults stand with a timeout of one second.
pub fn build_shortcut_map(defaults: Vec<(Shortcut, String)>, settings: Option<&ShortcutSettings>) -> (map:
    ShortcutMap)
    ensures
        match settings {
            None => map.bindings@ == defaults@ && map.chord_timeout_ms == 1000,
            Some(s) => map.bindings@ == spec_built_bindings(defaults@, *s) && map.chord_timeout_ms
                == s.chord_timeout_ms,
        },
{
    let mut bindings = defaults;
    match settings {
        None => ShortcutMap { bindings, chord_timeout_ms: 1000 },
        Some(s) => {
            let leader = s.leader.to_key_combo();
            let ghost base = bindings@;
            match leader {
                Some(l) => {
                    let mut i: usize = 0;
                    while i < bindings.len()
                        invariant
                            i <= bindings@.len(),
                            bindings@.len() == base.len(),
                            forall|j: int|
                                0 <= j < i ==> #[trigger] bindings@[j] == with_prefix(base[j], l),
                            forall|j: int| i <= j < bindings@.len() ==> #[trigger] bindings@[j] == base[j],
                        decreases bindings@.len() - i,
                    {
                        let second = match &bindings[i].0 {
                            Shortcut::Chord(_, sec) => Some(*sec),
                            Shortcut::Direct(_) => None,
                        };
                        match second {
                            Some(sec) => {
                                let cmd = bindings[i].1.clone();
                                bindings.set(i, (Shortcut::Chord(l, sec), cmd));
                            },
                            None => {},
                        }
                        i = i + 1;
                    }
                },
                None => {},
            }
            let ghost mid = bindings@;
            let mut k: usize = 0;
            while k < s.bindings.len()
                invariant
                    k <= s.bindings@.len(),
                    bindings@ == mid + user_bindings(s.bindings@.subrange(0, k as int), leader),
                decreases s.bindings@.len() - k,
            {
                let entry = &s.bindings[k];
                let sc = match &leader {
                    Some(l) => entry.binding.to_shortcut_with_leader(l),
                    None => entry.binding.to_shortcut(),
                };
                proof {
                    let sub = s.bindings@.subrange(0, k as int + 1);
                    assert(sub.drop_last() =~= s.bindings@.subrange(0, k as int));
                    assert(sub.last() == s.bindings@[k as int]);
                }
                match sc {
                    Some(sc) => {
                        bindings.push((sc, entry.command.clone()));
                    },
                    None => {},
                }
                k = k + 1;
            }
            proof {
                assert(s.bindings@.subrange(0, s.bindings@.len() as int) =~= s.bindings@);
                match leader {
                    Some(l) => {
                        assert(mid =~= base.map_values(|b: (Shortcut, String)| with_prefix(b, l)));
                    },
                    None => {
                        assert(mid == base);
                    },
                }
            }
            ShortcutMap { bindings, chord_timeout_ms: s.chord_timeout_ms }
        },
    }
}

} // verus!
