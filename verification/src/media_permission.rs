//! Per-site camera, microphone and screen permissions: what is remembered,
//! how a request is answered from it, and the words of the prompt.
use crate::text::{chars_of, str_eq};
use vstd::prelude::*;
use vstd::string::*;

verus! {

/// A remembered answer for one category.
#[derive(Clone, Copy, Debug, PartialEq, Eq, Structural)]
pub enum PermissionDecision {
    Allow,
    Block,
}

/// The remembered answers of one site, per category.
#[derive(Clone, Copy, Debug, PartialEq, Eq, Structural)]
pub struct OriginPermissions {
    pub camera: Option<PermissionDecision>,
    pub microphone: Option<PermissionDecision>,
    pub screen: Option<PermissionDecision>,
}

impl Default for OriginPermissions {
    fn default() -> (p: Self)
        ensures
            p.camera is None,
            p.microphone is None,
            p.screen is None,
    {
        OriginPermissions { camera: None, microphone: None, screen: None }
    }
}

/// The categories a media request asks for.
#[derive(Clone, Copy, Debug, PartialEq, Eq, Structural)]
pub struct RequestCategories {
    pub camera: bool,
    pub microphone: bool,
    pub screen: bool,
}

/// Where one category of a request stands.
#[derive(Clone, Copy, Debug, PartialEq, Eq, Structural)]
pub enum CategoryState {
    NotRequested,
    Undecided,
    Allow,
    Block,
}

/// How a request is answered.
#[derive(Clone, Copy, Debug, PartialEq, Eq, Structural)]
pub enum Resolution {
    Grant,
    Deny,
    Prompt,
}

/// Where a category stands: not asked for, asked for with no answer
/// remembered, or asked for with the remembered answer.
pub open spec fn spec_state(requested: bool, stored: Option<PermissionDecision>) -> CategoryState {
    if !requested {
        CategoryState::NotRequested
    } else {
        match stored {
            Some(PermissionDecision::Allow) => CategoryState::Allow,
            Some(PermissionDecision::Block) => CategoryState::Block,
            None => CategoryState::Undecided,
        }
    }
}

/// The states of the three categories of a request for a site with the
/// remembered answers `entry`.
pub open spec fn category_states(entry: Option<OriginPermissions>, c: RequestCategories) -> (
    CategoryState,
    CategoryState,
    CategoryState,
) {
    match entry {
        Some(e) => (
            spec_state(c.camera, e.camera),
            spec_state(c.microphone, e.microphone),
            spec_state(c.screen, e.screen),
        ),
        None => (spec_state(c.camera, None), spec_state(c.microphone, None), spec_state(c.screen, None)),
    }
}

/// A request is put to the user while any category it asks for has no
/// remembered answer; otherwise it is denied when any is blocked, and
/// granted when none is.
pub open spec fn spec_resolution(entry: Option<OriginPermissions>, c: RequestCategories) -> Resolution {
    let s = category_states(entry, c);
    if s.0 == CategoryState::Undecided || s.1 == CategoryState::Undecided || s.2
        == CategoryState::Undecided {
        Resolution::Prompt
    } else if s.0 == CategoryState::Block || s.1 == CategoryState::Block || s.2
        == CategoryState::Block {
        Resolution::Deny
    } else {
        Resolution::Grant
    }
}

/// The remembered answer of a site for one category.
pub open spec fn remembered(entry: Option<OriginPermissions>, which: int) -> Option<PermissionDecision> {
    match entry {
        Some(e) => if which == 0 {
            e.camera
        } else if which == 1 {
            e.microphone
        } else {
            e.screen
        },
        None => None,
    }
}

/// Whether the request asks for the category.
pub open spec fn asks_for(c: RequestCategories, which: int) -> bool {
    if which == 0 {
        c.camera
    } else if which == 1 {
        c.microphone
    } else {
        c.screen
    }
}

/// How a request is answered, by its categories (0 camera, 1 microphone,
/// 2 screen): if any category it asks for has no remembered answer, the
/// user is asked, whatever the others hold; otherwise it is denied if any
/// category it asks for is remembered as blocked, and granted if none is.
pub proof fn law_unanswered_category_is_asked(entry: Option<OriginPermissions>, c: RequestCategories)
    ensures
        (exists|k: int| 0 <= k < 3 && asks_for(c, k) && #[trigger] remembered(entry, k) is None)
            ==> spec_resolution(entry, c) == Resolution::Prompt,
        (forall|k: int| 0 <= k < 3 && asks_for(c, k) ==> #[trigger] remembered(entry, k) is Some) && (
        exists|k: int|
            0 <= k < 3 && asks_for(c, k) && #[trigger] remembered(entry, k) == Some(
                PermissionDecision::Block,
            )) ==> spec_resolution(entry, c) == Resolution::Deny,
        (forall|k: int|
            0 <= k < 3 && asks_for(c, k) ==> #[trigger] remembered(entry, k) == Some(
                PermissionDecision::Allow,
            )) ==> spec_resolution(entry, c) == Resolution::Grant,
{
    assert(remembered(entry, 0) == remembered(entry, 0));
    assert(remembered(entry, 1) == remembered(entry, 1));
    assert(remembered(entry, 2) == remembered(entry, 2));
}

/// The answers of a site after `decision` is remembered for the categories of `c`.
pub open spec fn spec_recorded(
    e: OriginPermissions,
    c: RequestCategories,
    decision: PermissionDecision,
) -> OriginPermissions {
    OriginPermissions {
        camera: if c.camera {
            Some(decision)
        } else {
            e.camera
        },
        microphone: if c.microphone {
            Some(decision)
        } else {
            e.microphone
        },
        screen: if c.screen {
            Some(decision)
        } else {
            e.screen
        },
    }
}

/// The decision that an answer of the user stands for.
pub open spec fn decision_of(allow: bool) -> PermissionDecision {
    if allow {
        PermissionDecision::Allow
    } else {
        PermissionDecision::Block
    }
}

impl RequestCategories {
    /// Where a category stands (see `spec_state`).
    pub fn state(&self, requested: bool, stored: Option<PermissionDecision>) -> (s: CategoryState)
        ensures
            s == spec_state(requested, stored),
    {
        if !requested {
            CategoryState::NotRequested
        } else {
            match stored {
                Some(PermissionDecision::Allow) => CategoryState::Allow,
                Some(PermissionDecision::Block) => CategoryState::Block,
                None => CategoryState::Undecided,
            }
        }
    }

    /// The system symbol shown on the prompt: a camera where the camera is
    /// asked for, else a microphone where it is, else a screen.
    pub fn symbol(&self) -> (s: &'static str)
        ensures
            s@ == (if self.camera {
                "video.fill"@
            } else if self.microphone {
                "mic.fill"@
            } else {
                "rectangle.on.rectangle"@
            }),
    {
        if self.camera {
            "video.fill"
        } else if self.microphone {
            "mic.fill"
        } else {
            "rectangle.on.rectangle"
        }
    }

    /// The names of the categories asked for, in the order camera, microphone, screen.
    pub open spec fn parts(self) -> Seq<Seq<char>> {
        let a = if self.camera {
            seq!["camera"@]
        } else {
            Seq::empty()
        };
        let b = if self.microphone {
            a.push("microphone"@)
        } else {
            a
        };
        if self.screen {
            b.push("screen"@)
        } else {
            b
        }
    }

    /// The categories in words: "media" for none, the one name, "x and y"
    /// for two, and "x, y, and z" for three.
    pub open spec fn spec_phrase(self) -> Seq<char> {
        let p = self.parts();
        if p.len() == 0 {
            "media"@
        } else if p.len() == 1 {
            p[0]
        } else if p.len() == 2 {
            p[0] + " and "@ + p[1]
        } else {
            p[0] + ", "@ + p[1] + ", and "@ + p[2]
        }
    }

    /// The categories in words (see `spec_phrase`).
    pub fn phrase(&self) -> (s: String)
        ensures
            s@ == self.spec_phrase(),
    {
        let mut parts: Vec<&'static str> = Vec::new();
        if self.camera {
            parts.push("camera");
        }
        if self.microphone {
            parts.push("microphone");
        }
        if self.screen {
            parts.push("screen");
        }
        proof {
            assert(parts@.len() == self.parts().len());
            assert(forall|i: int| 0 <= i < parts@.len() ==> #[trigger] parts@[i]@ == self.parts()[i]);
        }
        if parts.len() == 0 {
            "media".to_owned()
        } else if parts.len() == 1 {
            parts[0].to_owned()
        } else if parts.len() == 2 {
            parts[0].to_owned().concat(" and ").concat(parts[1])
        } else {
            parts[0].to_owned().concat(", ").concat(parts[1]).concat(", and ").concat(parts[2])
        }
    }
}

/// The remembered answers of `origin` in `s`: those of its last entry.
pub open spec fn origins_map(s: Seq<(String, OriginPermissions)>) -> Map<
    Seq<char>,
    OriginPermissions,
>
    decreases s.len(),
{
    if s.len() == 0 {
        Map::empty()
    } else {
        origins_map(s.drop_last()).insert(s.last().0@, s.last().1)
    }
}

proof fn lemma_origins_map_found(s: Seq<(String, OriginPermissions)>, k: Seq<char>, i: int)
    requires
        0 <= i < s.len(),
        s[i].0@ == k,
        forall|j: int| i < j < s.len() ==> #[trigger] s[j].0@ != k,
    ensures
        origins_map(s).contains_key(k),
        origins_map(s)[k] == s[i].1,
    decreases s.len(),
{
    if i < s.len() - 1 {
        assert(s.last().0@ != k);
        lemma_origins_map_found(s.drop_last(), k, i);
    }
}

proof fn lemma_origins_map_absent(s: Seq<(String, OriginPermissions)>, k: Seq<char>)
    requires
        forall|j: int| 0 <= j < s.len() ==> #[trigger] s[j].0@ != k,
    ensures
        !origins_map(s).contains_key(k),
    decreases s.len(),
{
    if s.len() > 0 {
        assert(s.last().0@ != k);
        lemma_origins_map_absent(s.drop_last(), k);
    }
}

proof fn lemma_origins_map_update(
    s: Seq<(String, OriginPermissions)>,
    i: int,
    v: OriginPermissions,
)
    requires
        0 <= i < s.len(),
        forall|j: int| i < j < s.len() ==> #[trigger] s[j].0@ != s[i].0@,
    ensures
        origins_map(s.update(i, (s[i].0, v))) == origins_map(s).insert(s[i].0@, v),
    decreases s.len(),
{
    let t = s.update(i, (s[i].0, v));
    if i == s.len() - 1 {
        assert(t.drop_last() =~= s.drop_last());
    } else {
        assert(t.drop_last() =~= s.drop_last().update(i, (s[i].0, v)));
        lemma_origins_map_update(s.drop_last(), i, v);
        assert(s.last().0@ != s[i].0@);
        assert(origins_map(t) =~= origins_map(s).insert(s[i].0@, v));
    }
}

/// The remembered answers of every site that has any.
#[derive(Clone, Debug)]
pub struct MediaPermissionStore {
    origins: Vec<(String, OriginPermissions)>,
}

impl View for MediaPermissionStore {
    type V = Map<Seq<char>, OriginPermissions>;

    closed spec fn view(&self) -> Map<Seq<char>, OriginPermissions> {
        origins_map(self.origins@)
    }
}

impl Default for MediaPermissionStore {
    fn default() -> (s: Self)
        ensures
            s@ == Map::<Seq<char>, OriginPermissions>::empty(),
    {
        MediaPermissionStore { origins: Vec::new() }
    }
}

impl MediaPermissionStore {
    /// The index of the last entry of `origin`, if any.
    fn find(&self, origin: &str) -> (res: Option<usize>)
        ensures
            match res {
                Some(i) => {
                    &&& i < self.origins@.len()
                    &&& self.origins@[i as int].0@ == origin@
                    &&& forall|j: int|
                        i < j < self.origins@.len() ==> #[trigger] self.origins@[j].0@ != origin@
                },
                None => forall|j: int|
                    0 <= j < self.origins@.len() ==> #[trigger] self.origins@[j].0@ != origin@,
            },
    {
        let mut i: usize = self.origins.len();
        while i > 0
            invariant
                i <= self.origins@.len(),
                forall|j: int| i <= j < self.origins@.len() ==> #[trigger] self.origins@[j].0@ != origin@,
            decreases i,
        {
            i = i - 1;
            if str_eq(self.origins[i].0.as_str(), origin) {
                return Some(i);
            }
        }
        None
    }

    /// The remembered answers of `origin`, if any.
    pub fn get(&self, origin: &str) -> (res: Option<OriginPermissions>)
        ensures
            res == (if self@.contains_key(origin@) {
                Some(self@[origin@])
            } else {
                None
            }),
    {
        match self.find(origin) {
            Some(i) => {
                proof {
                    lemma_origins_map_found(self.origins@, origin@, i as int);
                }
                Some(self.origins[i].1)
            },
            None => {
                proof {
                    lemma_origins_map_absent(self.origins@, origin@);
                }
                None
            },
        }
    }

    /// Remembers `perms` as the answers of `origin`, replacing any it had.
    pub fn insert(&mut self, origin: String, perms: OriginPermissions)
        ensures
            final(self)@ == old(self)@.insert(origin@, perms),
    {
        match self.find(origin.as_str()) {
            Some(i) => {
                let name = self.origins[i].0.clone();
                proof {
                    lemma_origins_map_update(self.origins@, i as int, perms);
                }
                self.origins.set(i, (name, perms));
            },
            None => {
                let ghost before = self.origins@;
                self.origins.push((origin, perms));
                proof {
                    assert(self.origins@.drop_last() =~= before);
                }
            },
        }
    }

    /// The remembered sites with their answers, one entry per site.
    pub fn entries(&self) -> (res: Vec<(String, OriginPermissions)>)
        ensures
            origins_map(res@) == self@,
    {
        let mut out: Vec<(String, OriginPermissions)> = Vec::new();
        let mut i: usize = 0;
        while i < self.origins.len()
            invariant
                i <= self.origins@.len(),
                out@ == self.origins@.subrange(0, i as int),
            decreases self.origins@.len() - i,
        {
            let name = self.origins[i].0.clone();
            out.push((name, self.origins[i].1));
            assert(self.origins@.subrange(0, i as int + 1) =~= self.origins@.subrange(0, i as int).push(
                self.origins@[i as int],
            ));
            i = i + 1;
        }
        assert(self.origins@.subrange(0, self.origins@.len() as int) =~= self.origins@);
        out
    }

    /// A store holding the given entries, a later entry of a site replacing an earlier one.
    pub fn from_entries(entries: Vec<(String, OriginPermissions)>) -> (s: Self)
        ensures
            s@ == origins_map(entries@),
    {
        MediaPermissionStore { origins: entries }
    }

    /// How a request of `origin` for the categories `c` is answered (see `spec_resolution`).
    pub fn decision_for(&self, origin: &str, c: RequestCategories) -> (r: Resolution)
        ensures
            r == spec_resolution(
                if self@.contains_key(origin@) {
                    Some(self@[origin@])
                } else {
                    None
                },
                c,
            ),
    {
        let entry = self.get(origin);
        let (cam, mic, scr) = match entry {
            Some(e) => (e.camera, e.microphone, e.screen),
            None => (None, None, None),
        };
        let s0 = c.state(c.camera, cam);
        let s1 = c.state(c.microphone, mic);
        let s2 = c.state(c.screen, scr);
        if s0 == CategoryState::Undecided || s1 == CategoryState::Undecided || s2
            == CategoryState::Undecided {
            Resolution::Prompt
        } else if s0 == CategoryState::Block || s1 == CategoryState::Block || s2
            == CategoryState::Block {
            Resolution::Deny
        } else {
            Resolution::Grant
        }
    }

    /// Remembers the user's answer for the categories of `c` asked by
    /// `origin`, leaving its other categories and every other site as they were.
    /// Writing the store to disk is the caller's.
    pub fn record(&mut self, origin: &str, c: RequestCategories, allow: bool)
        ensures
            final(self)@ == old(self)@.insert(
                origin@,
                spec_recorded(
                    if old(self)@.contains_key(origin@) {
                        old(self)@[origin@]
                    } else {
                        OriginPermissions { camera: None, microphone: None, screen: None }
                    },
                    c,
                    decision_of(allow),
                ),
            ),
    {
        let decision = if allow {
            PermissionDecision::Allow
        } else {
            PermissionDecision::Block
        };
        let mut e = match self.get(origin) {
            Some(e) => e,
            None => OriginPermissions::default(),
        };
        if c.camera {
            e.camera = Some(decision);
        }
        if c.microphone {
            e.microphone = Some(decision);
        }
        if c.screen {
            e.screen = Some(decision);
        }
        self.insert(origin.to_owned(), e);
    }

    /// Settles a request: granted or denied from what is remembered, and
    /// otherwise by the user's answer to the prompt, which is then
    /// remembered; a prompt that could not be shown denies.
    pub fn settle_request(&mut self, origin: &str, c: RequestCategories, answer: Option<bool>) -> (allow:
        bool)
        ensures
            ({
                let entry = if old(self)@.contains_key(origin@) {
                    Some(old(self)@[origin@])
                } else {
                    None
                };
                match spec_resolution(entry, c) {
                    Resolution::Grant => allow && final(self)@ == old(self)@,
                    Resolution::Deny => !allow && final(self)@ == old(self)@,
                    Resolution::Prompt => match answer {
                        None => !allow && final(self)@ == old(self)@,
                        Some(a) => allow == a && final(self)@ == old(self)@.insert(
                            origin@,
                            spec_recorded(
                                match entry {
                                    Some(e) => e,
                                    None => OriginPermissions {
                                        camera: None,
                                        microphone: None,
                                        screen: None,
                                    },
                                },
                                c,
                                decision_of(a),
                            ),
                        ),
                    },
                }
            }),
    {
        match self.decision_for(origin, c) {
            Resolution::Grant => true,
            Resolution::Deny => false,
            Resolution::Prompt => match answer {
                Some(a) => {
                    self.record(origin, c, a);
                    a
                },
                None => false,
            },
        }
    }
}

/// The index of the first "://" in `s` at or after `i`, if any.
pub open spec fn scheme_sep_from(s: Seq<char>, i: int) -> Option<int>
    decreases s.len() - i,
{
    if i < 0 || i + 3 > s.len() {
        None
    } else if s[i] == ':' && s[i + 1] == '/' && s[i + 2] == '/' {
        Some(i)
    } else {
        scheme_sep_from(s, i + 1)
    }
}

/// The index of the first '/' in `s` at or after `i`, or the length of `s`.
pub open spec fn slash_from(s: Seq<char>, i: int) -> int
    decreases s.len() - i,
{
    if i < 0 || i >= s.len() {
        s.len() as int
    } else if s[i] == '/' {
        i
    } else {
        slash_from(s, i + 1)
    }
}

/// The host part of an origin: what follows the first "://", if there is
/// one, up to the first '/' after it.
pub open spec fn spec_permission_host(origin: Seq<char>) -> Seq<char> {
    let start = match scheme_sep_from(origin, 0) {
        Some(i) => i + 3,
        None => 0,
    };
    origin.subrange(start, slash_from(origin, start))
}

fn find_scheme_sep(cs: &Vec<char>) -> (res: Option<usize>)
    ensures
        match res {
            Some(k) => 3 <= k <= cs@.len() && scheme_sep_from(cs@, 0) == Some(k - 3),
            None => scheme_sep_from(cs@, 0) is None,
        },
{
    let n = cs.len();
    if n < 3 {
        return None;
    }
    let mut i: usize = 0;
    while i <= n - 3
        invariant
            n == cs@.len(),
            n >= 3,
            i <= n - 2,
            scheme_sep_from(cs@, 0) == scheme_sep_from(cs@, i as int),
        decreases n - i,
    {
        if cs[i] == ':' && cs[i + 1] == '/' && cs[i + 2] == '/' {
            return Some(i + 3);
        }
        i = i + 1;
    }
    None
}

fn find_slash(cs: &Vec<char>, start: usize) -> (j: usize)
    requires
        start <= cs@.len(),
    ensures
        j as int == slash_from(cs@, start as int),
        start <= j <= cs@.len(),
{
    let n = cs.len();
    let mut j: usize = start;
    while j < n
        invariant
            n == cs@.len(),
            start <= j <= n,
            slash_from(cs@, start as int) == slash_from(cs@, j as int),
        decreases n - j,
    {
        if cs[j] == '/' {
            return j;
        }
        j = j + 1;
    }
    j
}

/// The host part of an origin, as the prompt names the site (see `spec_permission_host`).
pub fn permission_host(origin: &str) -> (host: &str)
    ensures
        host@ == spec_permission_host(origin@),
{
    let cs = chars_of(origin);
    let start = match find_scheme_sep(&cs) {
        Some(k) => k,
        None => 0,
    };
    let j = find_slash(&cs, start);
    origin.substring_char(start, j)
}

/// Once a site's answer is remembered for some categories, a request of that
/// site for those same categories is granted if the answer was to allow, and
/// denied if it was to block, unless it asks for no category, which is granted.
pub proof fn law_recorded_answer_decides(
    m: Map<Seq<char>, OriginPermissions>,
    origin: Seq<char>,
    c: RequestCategories,
    allow: bool,
)
    ensures
        ({
            let after = m.insert(
                origin,
                spec_recorded(
                    if m.contains_key(origin) {
                        m[origin]
                    } else {
                        OriginPermissions { camera: None, microphone: None, screen: None }
                    },
                    c,
                    decision_of(allow),
                ),
            );
            spec_resolution(Some(after[origin]), c) == if allow || !(c.camera || c.microphone
                || c.screen) {
                Resolution::Grant
            } else {
                Resolution::Deny
            }
        }),
{
}

/// Remembering an answer for one site changes how no other site's requests are answered.
pub proof fn law_record_leaves_other_sites(
    m: Map<Seq<char>, OriginPermissions>,
    origin: Seq<char>,
    other: Seq<char>,
    e: OriginPermissions,
)
    requires
        origin != other,
    ensures
        m.insert(origin, e).contains_key(other) == m.contains_key(other),
        m.contains_key(other) ==> m.insert(origin, e)[other] == m[other],
{
}

} // verus!
