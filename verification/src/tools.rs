//! The tools page: package inventories read from package managers, the
//! actions offered on each package, and the manifest of managed packages.
use crate::settings_path::{
    find_member, json_parse_of, lemma_find_member, members_view, parse_json, JsonValue, JsonView,
};
use crate::text::{
    ascii_lower, chars_of, contains_text, line_ranges, range_texts, spec_lines, spec_trim,
    spec_words, str_eq, string_of_range, text_contains, to_ascii_lower, trim_bounds, word_ranges,
};
use crate::decimal::{decimal_chars, push_decimal_str};
use crate::sorting::{
    is_stable_sort, keyed_view, lemma_stable_sort_map, map_items, names_view, sorted_name_set,
    stable_sort_by_key, strictly_sorted,
};
use vstd::prelude::*;
use vstd::string::*;

verus! {

/// Where a package stands.
#[derive(Clone, Copy, Debug, PartialEq, Eq, Structural)]
pub enum ToolStatus {
    Installed,
    Outdated,
    Missing,
    Conflict,
    /// Found on the machine but not managed.
    Available,
}

/// What can be done to a package.
#[derive(Clone, Copy, Debug, PartialEq, Eq, Structural)]
pub enum ToolAction {
    Adopt,
    Update,
    Install,
    Uninstall,
    Forget,
    Link,
    Unlink,
    /// Bring the machine in line with the manifest.
    Apply,
    /// Take a provider's packages into the manifest.
    Import,
}

/// The actions offered on a package: adopting an installed one that is not
/// managed, updating an outdated one, installing a missing one, and
/// uninstalling a removable one, in that order.
pub open spec fn spec_package_actions(status: ToolStatus, managed: bool, removable: bool) -> Seq<
    ToolAction,
> {
    let a = if !managed && (status == ToolStatus::Installed || status == ToolStatus::Outdated) {
        seq![ToolAction::Adopt]
    } else {
        Seq::empty()
    };
    let b = if status == ToolStatus::Outdated {
        a.push(ToolAction::Update)
    } else {
        a
    };
    let c = if status == ToolStatus::Missing {
        b.push(ToolAction::Install)
    } else {
        b
    };
    if removable {
        c.push(ToolAction::Uninstall)
    } else {
        c
    }
}

/// The actions offered on a package (see `spec_package_actions`).
pub fn package_actions(status: ToolStatus, managed: bool, removable: bool) -> (actions: Vec<
    ToolAction,
>)
    ensures
        actions@ == spec_package_actions(status, managed, removable),
{
    let mut actions: Vec<ToolAction> = Vec::new();
    if !managed && (status == ToolStatus::Installed || status == ToolStatus::Outdated) {
        actions.push(ToolAction::Adopt);
    }
    if status == ToolStatus::Outdated {
        actions.push(ToolAction::Update);
    }
    if status == ToolStatus::Missing {
        actions.push(ToolAction::Install);
    }
    if removable {
        actions.push(ToolAction::Uninstall);
    }
    actions
}

/// The text `String::from_utf8_lossy` makes of bytes: their UTF-8 decoding
/// with each invalid sequence replaced.
pub uninterp spec fn utf8_lossy(bytes: Seq<u8>) -> Seq<char>;

/// `String::from_utf8_lossy`: its result is named `utf8_lossy` of the bytes.
#[verifier::external_body]
fn decode_lossy(bytes: &[u8]) -> (s: String)
    ensures
        s@ == utf8_lossy(bytes@),
{
    String::from_utf8_lossy(bytes).into_owned()
}

/// `ws` joined with single spaces.
pub open spec fn join_spaced(ws: Seq<Seq<char>>) -> Seq<char>
    decreases ws.len(),
{
    if ws.len() == 0 {
        Seq::empty()
    } else if ws.len() == 1 {
        ws[0]
    } else {
        join_spaced(ws.drop_last()) + " "@ + ws.last()
    }
}

/// The package and version of each line of `brew list --versions` that has
/// a word: the first word is the package, the others joined by single
/// spaces its versions, if any.
pub open spec fn brew_entries(lines: Seq<Seq<char>>) -> Seq<(Seq<char>, Option<Seq<char>>)>
    decreases lines.len(),
{
    if lines.len() == 0 {
        Seq::empty()
    } else {
        let rest = brew_entries(lines.drop_last());
        let w = spec_words(lines.last());
        if w.len() == 0 {
            rest
        } else {
            rest.push(
                (
                    w[0],
                    if w.len() > 1 {
                        Some(join_spaced(w.subrange(1, w.len() as int)))
                    } else {
                        None
                    },
                ),
            )
        }
    }
}

/// The first word of each line that has one.
pub open spec fn first_words(lines: Seq<Seq<char>>) -> Seq<Seq<char>>
    decreases lines.len(),
{
    if lines.len() == 0 {
        Seq::empty()
    } else {
        let rest = first_words(lines.drop_last());
        let w = spec_words(lines.last());
        if w.len() == 0 {
            rest
        } else {
            rest.push(w[0])
        }
    }
}

/// The pairs as mathematical values.
pub open spec fn entries_view(v: Seq<(String, Option<String>)>) -> Seq<(Seq<char>, Option<Seq<char>>)> {
    v.map_values(
        |e: (String, Option<String>)|
            (
                e.0@,
                match e.1 {
                    Some(x) => Some(x@),
                    None => None,
                },
            ),
    )
}

fn copy_range(cs: &Vec<char>, from: usize, to: usize) -> (v: Vec<char>)
    requires
        from <= to <= cs@.len(),
    ensures
        v@ == cs@.subrange(from as int, to as int),
{
    let mut v: Vec<char> = Vec::new();
    let mut i: usize = from;
    while i < to
        invariant
            from <= i <= to <= cs@.len(),
            v@ == cs@.subrange(from as int, i as int),
        decreases to - i,
    {
        v.push(cs[i]);
        assert(cs@.subrange(from as int, i + 1) =~= cs@.subrange(from as int, i as int).push(
            cs@[i as int],
        ));
        i = i + 1;
    }
    v
}

/// The words of `line[a..b]` joined by single spaces, from word `k` on.
fn join_words_from(line: &Vec<char>, ws: &Vec<(usize, usize)>, k: usize) -> (s: String)
    requires
        1 <= k < ws@.len(),
        forall|j: int| 0 <= j < ws@.len() ==> (#[trigger] ws@[j]).0 <= ws@[j].1 <= line@.len(),
    ensures
        s@ == join_spaced(
            ws@.map_values(|r: (usize, usize)| line@.subrange(r.0 as int, r.1 as int)).subrange(
                k as int,
                ws@.len() as int,
            ),
        ),
{
    let ghost f = |r: (usize, usize)| line@.subrange(r.0 as int, r.1 as int);
    let ghost wv = ws@.map_values(f);
    let n = ws.len();
    let mut s = string_of_range(line, ws[k].0, ws[k].1);
    let mut j: usize = k + 1;
    assert(wv.subrange(k as int, k + 1) =~= seq![wv[k as int]]);
    while j < ws.len()
        invariant
            1 <= k < j <= ws@.len(),
            f == (|r: (usize, usize)| line@.subrange(r.0 as int, r.1 as int)),
            wv == ws@.map_values(f),
            forall|m: int| 0 <= m < ws@.len() ==> (#[trigger] ws@[m]).0 <= ws@[m].1 <= line@.len(),
            s@ == join_spaced(wv.subrange(k as int, j as int)),
        decreases ws@.len() - j,
    {
        let w = string_of_range(line, ws[j].0, ws[j].1);
        s = s.concat(" ").concat(w.as_str());
        assert(wv.subrange(k as int, j + 1).drop_last() =~= wv.subrange(k as int, j as int));
        j = j + 1;
    }
    s
}

/// The package and version of each line of `brew list --versions` output
/// (see `brew_entries`).
pub fn parse_brew_lines(text: &str) -> (entries: Vec<(String, Option<String>)>)
    ensures
        entries_view(entries@) == brew_entries(spec_lines(text@)),
{
    let cs = chars_of(text);
    let rs = line_ranges(&cs);
    let ghost lines = spec_lines(text@);
    let mut out: Vec<(String, Option<String>)> = Vec::new();
    let mut i: usize = 0;
    while i < rs.len()
        invariant
            cs@ == text@,
            lines == spec_lines(text@),
            range_texts(cs@, rs@) == lines,
            forall|j: int| 0 <= j < rs@.len() ==> (#[trigger] rs@[j]).0 <= rs@[j].1 <= cs@.len(),
            i <= rs@.len(),
            entries_view(out@) == brew_entries(lines.subrange(0, i as int)),
        decreases rs@.len() - i,
    {
        let (p, e) = rs[i];
        assert(rs@[i as int].0 <= rs@[i as int].1 <= cs@.len());
        let line = copy_range(&cs, p, e);
        assert(line@ == lines[i as int]);
        let ws = word_ranges(&line, line.len());
        assert(line@.subrange(0, line@.len() as int) =~= line@);
        let ghost w = spec_words(line@);
        let ghost before = entries_view(out@);
        assert(lines.subrange(0, i + 1).drop_last() =~= lines.subrange(0, i as int));
        assert(lines.subrange(0, i + 1).last() == line@);
        if ws.len() > 0 {
            assert((#[trigger] ws@[0]).0 <= ws@[0].1 <= line@.len());
            let name = string_of_range(&line, ws[0].0, ws[0].1);
            let version = if ws.len() > 1 {
                Some(join_words_from(&line, &ws, 1))
            } else {
                None
            };
            out.push((name, version));
            assert(entries_view(out@) =~= before.push(
                (
                    w[0],
                    if w.len() > 1 {
                        Some(join_spaced(w.subrange(1, w.len() as int)))
                    } else {
                        None
                    },
                ),
            ));
        }
        i = i + 1;
    }
    assert(lines.subrange(0, rs@.len() as int) =~= lines);
    out
}

/// The package and version of each line of `brew list --versions` output,
/// given as bytes decoded as `String::from_utf8_lossy` decodes them.
pub fn parse_brew_versions(bytes: &[u8]) -> (entries: Vec<(String, Option<String>)>)
    ensures
        entries_view(entries@) == brew_entries(spec_lines(utf8_lossy(bytes@))),
{
    let text = decode_lossy(bytes);
    parse_brew_lines(text.as_str())
}

/// The first word of each line of `text` that has one: the package names of
/// `brew outdated` output.
pub fn parse_name_lines_text(text: &str) -> (names: Vec<String>)
    ensures
        names@.map_values(|n: String| n@) == first_words(spec_lines(text@)),
{
    let cs = chars_of(text);
    let rs = line_ranges(&cs);
    let ghost lines = spec_lines(text@);
    let mut out: Vec<String> = Vec::new();
    let mut i: usize = 0;
    while i < rs.len()
        invariant
            cs@ == text@,
            lines == spec_lines(text@),
            range_texts(cs@, rs@) == lines,
            forall|j: int| 0 <= j < rs@.len() ==> (#[trigger] rs@[j]).0 <= rs@[j].1 <= cs@.len(),
            i <= rs@.len(),
            out@.map_values(|n: String| n@) == first_words(lines.subrange(0, i as int)),
        decreases rs@.len() - i,
    {
        let (p, e) = rs[i];
        assert(rs@[i as int].0 <= rs@[i as int].1 <= cs@.len());
        let line = copy_range(&cs, p, e);
        assert(line@ == lines[i as int]);
        let ws = word_ranges(&line, line.len());
        assert(line@.subrange(0, line@.len() as int) =~= line@);
        let ghost before = out@.map_values(|n: String| n@);
        assert(lines.subrange(0, i + 1).drop_last() =~= lines.subrange(0, i as int));
        assert(lines.subrange(0, i + 1).last() == line@);
        if ws.len() > 0 {
            assert((#[trigger] ws@[0]).0 <= ws@[0].1 <= line@.len());
            let name = string_of_range(&line, ws[0].0, ws[0].1);
            out.push(name);
            assert(out@.map_values(|n: String| n@) =~= before.push(spec_words(line@)[0]));
        }
        i = i + 1;
    }
    assert(lines.subrange(0, rs@.len() as int) =~= lines);
    out
}

/// The first word of each line of output given as bytes (see
/// `parse_name_lines_text`); the names are looked up, so their order and
/// repeats do not matter.
pub fn parse_name_lines(bytes: &[u8]) -> (names: Vec<String>)
    ensures
        names@.map_values(|n: String| n@) == first_words(spec_lines(utf8_lossy(bytes@))),
{
    let text = decode_lossy(bytes);
    parse_name_lines_text(text.as_str())
}

/// The packages the user manages, each under the id of its provider.
#[derive(Clone, Debug)]
pub struct PackageManifest {
    entries: Vec<(String, String)>,
}

/// The entries as mathematical values.
pub open spec fn manifest_entries(v: Seq<(String, String)>) -> Seq<(Seq<char>, Seq<char>)> {
    v.map_values(|e: (String, String)| (e.0@, e.1@))
}

impl View for PackageManifest {
    type V = Set<(Seq<char>, Seq<char>)>;

    closed spec fn view(&self) -> Set<(Seq<char>, Seq<char>)> {
        manifest_entries(self.entries@).to_set()
    }
}

impl PackageManifest {
    /// No package managed.
    pub fn new() -> (m: Self)
        ensures
            m@ == Set::<(Seq<char>, Seq<char>)>::empty(),
    {
        let m = PackageManifest { entries: Vec::new() };
        assert(manifest_entries(m.entries@).to_set() =~= Set::<(Seq<char>, Seq<char>)>::empty());
        m
    }

    fn index_of(&self, provider: &str, id: &str) -> (r: Option<usize>)
        ensures
            match r {
                Some(i) => i < self.entries@.len() && manifest_entries(self.entries@)[i as int] == (
                    provider@,
                    id@,
                ),
                None => !manifest_entries(self.entries@).contains((provider@, id@)),
            },
    {
        let ghost v = manifest_entries(self.entries@);
        let mut i: usize = 0;
        while i < self.entries.len()
            invariant
                v == manifest_entries(self.entries@),
                i <= self.entries@.len(),
                forall|j: int| 0 <= j < i ==> #[trigger] v[j] != (provider@, id@),
            decreases self.entries@.len() - i,
        {
            if str_eq(self.entries[i].0.as_str(), provider) && str_eq(
                self.entries[i].1.as_str(),
                id,
            ) {
                return Some(i);
            }
            i = i + 1;
        }
        None
    }

    /// Whether the package `id` of `provider` is managed.
    pub fn contains(&self, provider: &str, id: &str) -> (r: bool)
        ensures
            r == self@.contains((provider@, id@)),
    {
        match self.index_of(provider, id) {
            Some(i) => {
                assert(manifest_entries(self.entries@).to_set().contains((provider@, id@)));
                true
            },
            None => false,
        }
    }

    /// Makes the package `id` of `provider` managed or not.
    pub fn set_package(&mut self, provider: &str, id: &str, enabled: bool)
        ensures
            enabled ==> final(self)@ == old(self)@.insert((provider@, id@)),
            !enabled ==> final(self)@ == old(self)@.remove((provider@, id@)),
    {
        let ghost e0 = manifest_entries(self.entries@);
        if enabled {
            if self.index_of(provider, id).is_none() {
                self.entries.push((provider.to_owned(), id.to_owned()));
                assert(manifest_entries(self.entries@) =~= e0.push((provider@, id@)));
                proof {
                    e0.lemma_push_to_set_commute((provider@, id@));
                }
                assert(manifest_entries(self.entries@).to_set() =~= e0.to_set().insert(
                    (provider@, id@),
                ));
            } else {
                assert(e0.to_set() =~= e0.to_set().insert((provider@, id@)));
            }
        } else {
            let mut kept: Vec<(String, String)> = Vec::new();
            let mut i: usize = 0;
            while i < self.entries.len()
                invariant
                    e0 == manifest_entries(self.entries@),
                    i <= self.entries@.len(),
                    manifest_entries(kept@).to_set() == e0.subrange(0, i as int).to_set().remove(
                        (provider@, id@),
                    ),
                decreases self.entries@.len() - i,
            {
                let ghost pre = e0.subrange(0, i as int);
                assert(e0.subrange(0, i + 1) =~= pre.push(e0[i as int]));
                proof {
                    pre.lemma_push_to_set_commute(e0[i as int]);
                }
                let is_it = str_eq(self.entries[i].0.as_str(), provider) && str_eq(
                    self.entries[i].1.as_str(),
                    id,
                );
                if !is_it {
                    let ghost kb = manifest_entries(kept@);
                    kept.push((self.entries[i].0.clone(), self.entries[i].1.clone()));
                    assert(manifest_entries(kept@) =~= kb.push(e0[i as int]));
                    proof {
                        kb.lemma_push_to_set_commute(e0[i as int]);
                    }
                    assert(manifest_entries(kept@).to_set() =~= e0.subrange(0, i + 1).to_set().remove(
                        (provider@, id@),
                    ));
                } else {
                    assert(manifest_entries(kept@).to_set() =~= e0.subrange(0, i + 1).to_set().remove(
                        (provider@, id@),
                    ));
                }
                i = i + 1;
            }
            assert(e0.subrange(0, e0.len() as int) =~= e0);
            self.entries = kept;
        }
    }

    /// The ids of the packages of `provider` that are managed.
    pub fn managed_package_set(&self, provider: &str) -> (ids: Vec<String>)
        ensures
            forall|id: Seq<char>|
                #[trigger] names_view(ids@).contains(id) <==> self@.contains((provider@, id)),
    {
        let ghost e0 = manifest_entries(self.entries@);
        let mut ids: Vec<String> = Vec::new();
        let mut i: usize = 0;
        while i < self.entries.len()
            invariant
                e0 == manifest_entries(self.entries@),
                i <= self.entries@.len(),
                forall|id: Seq<char>|
                    #[trigger] names_view(ids@).contains(id) <==> e0.subrange(
                        0,
                        i as int,
                    ).contains((provider@, id)),
            decreases self.entries@.len() - i,
        {
            let ghost pre = e0.subrange(0, i as int);
            let ghost before = names_view(ids@);
            assert(e0.subrange(0, i + 1) =~= pre.push(e0[i as int]));
            if str_eq(self.entries[i].0.as_str(), provider) {
                ids.push(self.entries[i].1.clone());
                assert(names_view(ids@) =~= before.push(e0[i as int].1));
            }
            assert forall|id: Seq<char>|
                #[trigger] names_view(ids@).contains(id) <==> e0.subrange(0, i + 1).contains(
                    (provider@, id),
                ) by {
                let now = names_view(ids@);
                let post = e0.subrange(0, i + 1);
                if now.contains(id) {
                    let k = choose|k: int| 0 <= k < now.len() && now[k] == id;
                    if k < before.len() {
                        assert(before[k] == id);
                        assert(before.contains(id));
                        let m = choose|m: int| 0 <= m < pre.len() && pre[m] == (provider@, id);
                        assert(post[m] == (provider@, id));
                    } else {
                        assert(post[i as int] == (provider@, id));
                    }
                }
                if post.contains((provider@, id)) {
                    let m = choose|m: int| 0 <= m < post.len() && post[m] == (provider@, id);
                    if m < i {
                        assert(pre[m] == (provider@, id));
                        assert(before.contains(id));
                        let k = choose|k: int| 0 <= k < before.len() && before[k] == id;
                        assert(now[k] == id);
                    } else {
                        assert(now[now.len() - 1] == id);
                    }
                }
            }
            i = i + 1;
        }
        assert(e0.subrange(0, e0.len() as int) =~= e0);
        ids
    }
}

/// A package found by a scan.
#[derive(Clone, Debug, PartialEq, Eq)]
pub struct InventoryItem {
    pub id: String,
    pub name: String,
    pub version: Option<String>,
    pub detail: String,
    pub status: ToolStatus,
    pub removable: bool,
}

/// Whether a scanned package is on the machine.
pub open spec fn is_present(status: ToolStatus) -> bool {
    status == ToolStatus::Installed || status == ToolStatus::Outdated
}

/// The manifest and the count of newly managed packages after the present
/// packages of `items` are adopted under `provider`.
pub open spec fn spec_import(
    m: Set<(Seq<char>, Seq<char>)>,
    provider: Seq<char>,
    items: Seq<InventoryItem>,
) -> (Set<(Seq<char>, Seq<char>)>, nat)
    decreases items.len(),
{
    if items.len() == 0 {
        (m, 0)
    } else {
        let r = spec_import(m, provider, items.drop_last());
        let it = items.last();
        if is_present(it.status) {
            (
                r.0.insert((provider, it.id@)),
                r.1 + if r.0.contains((provider, it.id@)) {
                    0nat
                } else {
                    1nat
                },
            )
        } else {
            r
        }
    }
}

proof fn lemma_spec_import_count(
    m: Set<(Seq<char>, Seq<char>)>,
    provider: Seq<char>,
    items: Seq<InventoryItem>,
)
    ensures
        spec_import(m, provider, items).1 <= items.len(),
    decreases items.len(),
{
    if items.len() > 0 {
        lemma_spec_import_count(m, provider, items.drop_last());
    }
}

/// Adopts every present package of `inventory` under `provider`, returning
/// how many were not managed before (see `spec_import`).
pub fn import_inventory(manifest: &mut PackageManifest, provider: &str, inventory: Vec<InventoryItem>) -> (imported: usize)
    ensures
        (final(manifest)@, imported as nat) == spec_import(old(manifest)@, provider@, inventory@),
{
    let mut imported: usize = 0;
    let mut i: usize = 0;
    while i < inventory.len()
        invariant
            i <= inventory@.len(),
            (manifest@, imported as nat) == spec_import(
                old(manifest)@,
                provider@,
                inventory@.subrange(0, i as int),
            ),
        decreases inventory@.len() - i,
    {
        let item = &inventory[i];
        assert(inventory@.subrange(0, i + 1).drop_last() =~= inventory@.subrange(0, i as int));
        proof {
            lemma_spec_import_count(old(manifest)@, provider@, inventory@.subrange(0, i as int));
        }
        if item.status == ToolStatus::Installed || item.status == ToolStatus::Outdated {
            if !manifest.contains(provider, item.id.as_str()) {
                imported = imported + 1;
            }
            manifest.set_package(provider, item.id.as_str(), true);
        }
        i = i + 1;
    }
    assert(inventory@.subrange(0, inventory@.len() as int) =~= inventory@);
    imported
}

/// The versions of an npm dependency entry: its `version` field when that is a string.
pub open spec fn npm_version(meta: JsonView) -> Option<Seq<char>> {
    match meta {
        JsonView::Object(es) => match find_member(es, "version"@) {
            Some(i) => match es[i].1 {
                JsonView::Str(v) => Some(v),
                _ => None,
            },
            None => None,
        },
        _ => None,
    }
}

/// The members of the `dependencies` object of an `npm list --json` document.
pub open spec fn npm_dependencies(doc: JsonView) -> Seq<(Seq<char>, JsonView)> {
    match doc {
        JsonView::Object(es) => match find_member(es, "dependencies"@) {
            Some(i) => match es[i].1 {
                JsonView::Object(deps) => deps,
                _ => Seq::empty(),
            },
            None => Seq::empty(),
        },
        _ => Seq::empty(),
    }
}

/// Whether a scanned npm package is outdated, as `npm outdated` lists them.
pub open spec fn npm_item_ok(item: InventoryItem, dep: (Seq<char>, JsonView), outdated: Seq<Seq<char>>) -> bool {
    &&& item.id@ == dep.0
    &&& item.name@ == dep.0
    &&& match item.version {
        Some(v) => npm_version(dep.1) == Some(v@),
        None => npm_version(dep.1) is None,
    }
    &&& item.detail@ == "Global npm package"@
    &&& item.status == if outdated.contains(dep.0) {
        ToolStatus::Outdated
    } else {
        ToolStatus::Installed
    }
    &&& item.removable
}

pub(crate) fn contains_name(names: &Vec<String>, name: &str) -> (r: bool)
    ensures
        r == names_view(names@).contains(name@),
{
    let mut i: usize = 0;
    while i < names.len()
        invariant
            i <= names@.len(),
            forall|j: int| 0 <= j < i ==> names@[j]@ != name@,
        decreases names@.len() - i,
    {
        if str_eq(names[i].as_str(), name) {
            assert(names_view(names@)[i as int] == name@);
            return true;
        }
        i = i + 1;
    }
    assert forall|j: int| 0 <= j < names_view(names@).len() implies names_view(names@)[j] != name@ by {
        assert(names_view(names@)[j] == names@[j]@);
    }
    false
}

/// The packages of an `npm list --global --json` document: one per member of
/// its `dependencies` object, in order (see `npm_item_ok`).
pub fn npm_inventory(doc: &JsonValue, outdated: &Vec<String>) -> (items: Vec<InventoryItem>)
    ensures
        items@.len() == npm_dependencies(doc.view()).len(),
        forall|i: int|
            0 <= i < items@.len() ==> npm_item_ok(
                #[trigger] items@[i],
                npm_dependencies(doc.view())[i],
                names_view(outdated@),
            ),
{
    let mut items: Vec<InventoryItem> = Vec::new();
    let deps = match doc.get_field("dependencies") {
        Some(d) => d,
        None => {
            proof {
                match doc.view() {
                    JsonView::Object(es) => {
                        lemma_find_member(es, "dependencies"@);
                    },
                    _ => {},
                }
            }
            return items;
        },
    };
    let members = match deps {
        JsonValue::Object(es) => es,
        _ => {
            return items;
        },
    };
    proof {
        crate::settings_path::lemma_object_view_pub(*members);
    }
    let ghost dv = npm_dependencies(doc.view());
    assert(dv == crate::settings_path::members_view(members@));
    let mut i: usize = 0;
    while i < members.len()
        invariant
            i <= members@.len(),
            dv == crate::settings_path::members_view(members@),
            items@.len() == i,
            forall|k: int| 0 <= k < i ==> npm_item_ok(#[trigger] items@[k], dv[k], names_view(outdated@)),
        decreases members@.len() - i,
    {
        let name = &members[i].0;
        let meta = &members[i].1;
        assert(dv[i as int] == (name@, meta.view()));
        let version = match meta.get_field("version") {
            Some(JsonValue::Str(v)) => Some(v.clone()),
            _ => None,
        };
        proof {
            match meta.view() {
                JsonView::Object(es) => {
                    lemma_find_member(es, "version"@);
                },
                _ => {},
            }
        }
        let status = if contains_name(outdated, name.as_str()) {
            ToolStatus::Outdated
        } else {
            ToolStatus::Installed
        };
        items.push(
            InventoryItem {
                id: name.clone(),
                name: name.clone(),
                version,
                detail: "Global npm package".to_owned(),
                status,
                removable: true,
            },
        );
        i = i + 1;
    }
    items
}

/// A package as the tools page lists it.
#[derive(Clone, Debug, PartialEq, Eq)]
pub struct ToolItem {
    pub id: String,
    pub name: String,
    pub version: Option<String>,
    pub detail: String,
    pub status: ToolStatus,
    pub managed: bool,
    pub actions: Vec<ToolAction>,
}

/// A listed package as a mathematical value.
pub struct ToolItemView {
    pub id: Seq<char>,
    pub name: Seq<char>,
    pub version: Option<Seq<char>>,
    pub detail: Seq<char>,
    pub status: ToolStatus,
    pub managed: bool,
    pub actions: Seq<ToolAction>,
}

impl ToolItem {
    pub open spec fn view(self) -> ToolItemView {
        ToolItemView {
            id: self.id@,
            name: self.name@,
            version: match self.version {
                Some(v) => Some(v@),
                None => None,
            },
            detail: self.detail@,
            status: self.status,
            managed: self.managed,
            actions: self.actions@,
        }
    }
}

/// The packages of one provider.
#[derive(Clone, Debug)]
pub struct ToolCategory {
    pub provider: String,
    pub items: Vec<ToolItem>,
}

/// The listing of a scanned package.
pub open spec fn scanned_item_view(it: InventoryItem, managed: bool) -> ToolItemView {
    ToolItemView {
        id: it.id@,
        name: it.name@,
        version: match it.version {
            Some(v) => Some(v@),
            None => None,
        },
        detail: it.detail@,
        status: it.status,
        managed,
        actions: spec_package_actions(it.status, managed, it.removable),
    }
}

/// The listing of a managed package that no scan found.
pub open spec fn missing_item_view(name: Seq<char>) -> ToolItemView {
    ToolItemView {
        id: name,
        name,
        version: None,
        detail: "Declared in tools.toml"@,
        status: ToolStatus::Missing,
        managed: true,
        actions: seq![ToolAction::Install, ToolAction::Forget],
    }
}

/// The key packages are listed in order of: the name in ASCII lower case,
/// then the name itself, each compared character by character.
pub open spec fn name_key(name: Seq<char>) -> Seq<i128> {
    name.map_values(|c: char| (ascii_lower(c) as u32) as i128) + seq![-1i128] + name.map_values(
        |c: char| (c as u32) as i128,
    )
}

/// The listings of a category before they are ordered: the scanned
/// packages in scan order, then the managed ones no scan found.
pub open spec fn category_unsorted(
    inv: Seq<InventoryItem>,
    m: Set<(Seq<char>, Seq<char>)>,
    provider: Seq<char>,
    declared: Seq<Seq<char>>,
) -> Seq<(Seq<i128>, ToolItemView)> {
    inv.map_values(
        |it: InventoryItem|
            (name_key(it.name@), scanned_item_view(it, m.contains((provider, it.id@)))),
    ) + declared.map_values(|d: Seq<char>| (name_key(d), missing_item_view(d)))
}

fn name_key_exec(name: &str) -> (k: Vec<i128>)
    ensures
        k@ == name_key(name@),
{
    let cs = chars_of(name);
    let mut k: Vec<i128> = Vec::new();
    let mut i: usize = 0;
    while i < cs.len()
        invariant
            cs@ == name@,
            i <= cs@.len(),
            k@ == cs@.subrange(0, i as int).map_values(|c: char| (ascii_lower(c) as u32) as i128),
        decreases cs@.len() - i,
    {
        let l = to_ascii_lower(cs[i]);
        k.push((l as u32) as i128);
        assert(cs@.subrange(0, i + 1).map_values(|c: char| (ascii_lower(c) as u32) as i128) =~= cs@.subrange(
            0,
            i as int,
        ).map_values(|c: char| (ascii_lower(c) as u32) as i128).push((ascii_lower(cs@[i as int]) as u32) as i128));
        i = i + 1;
    }
    let ghost lower = k@;
    k.push(-1i128);
    let mut j: usize = 0;
    while j < cs.len()
        invariant
            cs@ == name@,
            j <= cs@.len(),
            k@ == lower + seq![-1i128] + cs@.subrange(0, j as int).map_values(|c: char| (c as u32) as i128),
        decreases cs@.len() - j,
    {
        let c = cs[j];
        let ghost kb = k@;
        let v: i128 = (c as u32) as i128;
        k.push(v);
        assert(cs@.subrange(0, j + 1).map_values(|c: char| (c as u32) as i128) =~= cs@.subrange(
            0,
            j as int,
        ).map_values(|c: char| (c as u32) as i128).push((cs@[j as int] as u32) as i128));
        assert(k@ =~= lower + seq![-1i128] + cs@.subrange(0, j + 1).map_values(|c: char| (c as u32) as i128));
        j = j + 1;
    }
    assert(cs@.subrange(0, cs@.len() as int) =~= name@);
    k
}

/// The listing of a category: each scanned package, marked managed when the
/// manifest names it and given its actions, and each managed package no scan
/// found, listed as missing; all stably ordered by `name_key`.
pub fn build_category(provider: &str, inventory: Vec<InventoryItem>, manifest: &PackageManifest) -> (c:
    ToolCategory)
    ensures
        c.provider@ == provider@,
        exists|declared: Seq<Seq<char>>, sorted: Seq<(Seq<i128>, ToolItemView)>|
            {
                &&& declared.no_duplicates()
                &&& forall|d: Seq<char>|
                    #[trigger] declared.contains(d) <==> (manifest@.contains((provider@, d))
                        && !inventory@.map_values(|it: InventoryItem| it.id@).contains(d))
                &&& is_stable_sort(
                    category_unsorted(inventory@, manifest@, provider@, declared),
                    sorted,
                )
                &&& c.items@.map_values(|t: ToolItem| t.view()) == sorted.map_values(
                    |e: (Seq<i128>, ToolItemView)| e.1,
                )
            },
{
    let ghost view_fn = |t: ToolItem| t.view();
    let ghost inv_ids = inventory@.map_values(|it: InventoryItem| it.id@);
    let mut keyed: Vec<(Vec<i128>, ToolItem)> = Vec::new();
    let mut ids: Vec<String> = Vec::new();
    let mut i: usize = 0;
    while i < inventory.len()
        invariant
            i <= inventory@.len(),
            view_fn == (|t: ToolItem| t.view()),
            inv_ids == inventory@.map_values(|it: InventoryItem| it.id@),
            map_items(keyed_view(keyed@), view_fn) == category_unsorted(
                inventory@.subrange(0, i as int),
                manifest@,
                provider@,
                Seq::empty(),
            ),
            names_view(ids@) == inv_ids.subrange(0, i as int),
        decreases inventory@.len() - i,
    {
        let it = &inventory[i];
        let managed = manifest.contains(provider, it.id.as_str());
        let item = ToolItem {
            id: it.id.clone(),
            name: it.name.clone(),
            version: match &it.version {
                Some(v) => Some(v.clone()),
                None => None,
            },
            detail: it.detail.clone(),
            status: it.status,
            managed,
            actions: package_actions(it.status, managed, it.removable),
        };
        let key = name_key_exec(it.name.as_str());
        let ghost before = map_items(keyed_view(keyed@), view_fn);
        let ghost ib = names_view(ids@);
        keyed.push((key, item));
        ids.push(it.id.clone());
        proof {
            let sub = inventory@.subrange(0, i as int);
            let sub1 = inventory@.subrange(0, i + 1);
            assert(sub1 =~= sub.push(inventory@[i as int]));
            assert(map_items(keyed_view(keyed@), view_fn) =~= before.push(
                (
                    name_key(inventory@[i as int].name@),
                    scanned_item_view(
                        inventory@[i as int],
                        manifest@.contains((provider@, inventory@[i as int].id@)),
                    ),
                ),
            ));
            assert(category_unsorted(sub1, manifest@, provider@, Seq::empty()) =~= category_unsorted(
                sub,
                manifest@,
                provider@,
                Seq::empty(),
            ).push(
                (
                    name_key(inventory@[i as int].name@),
                    scanned_item_view(
                        inventory@[i as int],
                        manifest@.contains((provider@, inventory@[i as int].id@)),
                    ),
                ),
            ));
            assert(names_view(ids@) =~= ib.push(inventory@[i as int].id@));
            assert(inv_ids.subrange(0, i + 1) =~= inv_ids.subrange(0, i as int).push(
                inventory@[i as int].id@,
            ));
        }
        i = i + 1;
    }
    assert(inventory@.subrange(0, inventory@.len() as int) =~= inventory@);
    assert(inv_ids.subrange(0, inventory@.len() as int) =~= inv_ids);
    let declared_all = manifest.managed_package_set(provider);
    let ghost scanned = map_items(keyed_view(keyed@), view_fn);
    let mut declared: Vec<String> = Vec::new();
    let mut k: usize = 0;
    while k < declared_all.len()
        invariant
            k <= declared_all@.len(),
            view_fn == (|t: ToolItem| t.view()),
            names_view(ids@) == inv_ids,
            forall|id: Seq<char>|
                #[trigger] names_view(declared_all@).contains(id) <==> manifest@.contains(
                    (provider@, id),
                ),
            names_view(declared@).no_duplicates(),
            forall|d: Seq<char>|
                #[trigger] names_view(declared@).contains(d) <==> (names_view(declared_all@).subrange(
                    0,
                    k as int,
                ).contains(d) && !inv_ids.contains(d)),
            map_items(keyed_view(keyed@), view_fn) == scanned + names_view(declared@).map_values(
                |d: Seq<char>| (name_key(d), missing_item_view(d)),
            ),
        decreases declared_all@.len() - k,
    {
        let name = &declared_all[k];
        let ghost nm = name@;
        let ghost dk = names_view(declared@);
        let ghost pre = names_view(declared_all@).subrange(0, k as int);
        assert(names_view(declared_all@).subrange(0, k + 1) =~= pre.push(nm));
        let in_inv = contains_name(&ids, name.as_str());
        let dup = contains_name(&declared, name.as_str());
        if !in_inv && !dup {
            let key = name_key_exec(name.as_str());
            let item = ToolItem {
                id: name.clone(),
                name: name.clone(),
                version: None,
                detail: "Declared in tools.toml".to_owned(),
                status: ToolStatus::Missing,
                managed: true,
                actions: vec![ToolAction::Install, ToolAction::Forget],
            };
            let ghost before = map_items(keyed_view(keyed@), view_fn);
            keyed.push((key, item));
            declared.push(name.clone());
            proof {
                assert(names_view(declared@) =~= dk.push(nm));
                assert(map_items(keyed_view(keyed@), view_fn) =~= before.push(
                    (name_key(nm), missing_item_view(nm)),
                ));
                assert(dk.push(nm).map_values(|d: Seq<char>| (name_key(d), missing_item_view(d)))
                    =~= dk.map_values(|d: Seq<char>| (name_key(d), missing_item_view(d))).push(
                    (name_key(nm), missing_item_view(nm)),
                ));
                assert((scanned + dk.map_values(|d: Seq<char>| (name_key(d), missing_item_view(d)))).push(
                    (name_key(nm), missing_item_view(nm)),
                ) =~= scanned + dk.push(nm).map_values(
                    |d: Seq<char>| (name_key(d), missing_item_view(d)),
                ));
                assert forall|a: int, b: int|
                    0 <= a < b < names_view(declared@).len() implies names_view(declared@)[a]
                    != names_view(declared@)[b] by {
                    if b == dk.len() {
                        assert(dk.contains(dk[a]));
                    }
                }
            }
        }
        proof {
            let added = !in_inv && !dup;
            let d2 = names_view(declared@);
            if added {
                assert(d2 =~= dk.push(nm));
            } else {
                assert(d2 =~= dk);
            }
            assert forall|d: Seq<char>| #[trigger]
                d2.contains(d) <==> (pre.push(nm).contains(d) && !inv_ids.contains(d)) by {
                assert(pre.push(nm).contains(d) <==> (pre.contains(d) || d == nm)) by {
                    if pre.push(nm).contains(d) && d != nm {
                        let x = choose|x: int| 0 <= x < pre.len() + 1 && pre.push(nm)[x] == d;
                        assert(x < pre.len());
                        assert(pre[x] == d);
                    }
                    if pre.contains(d) {
                        let x = choose|x: int| 0 <= x < pre.len() && pre[x] == d;
                        assert(pre.push(nm)[x] == d);
                    }
                    if d == nm {
                        assert(pre.push(nm)[pre.len() as int] == nm);
                    }
                }
                assert(d2.contains(d) <==> (dk.contains(d) || (added && d == nm))) by {
                    if added {
                        if d2.contains(d) && d != nm {
                            let x = choose|x: int| 0 <= x < d2.len() && d2[x] == d;
                            assert(x < dk.len());
                            assert(dk[x] == d);
                        }
                        if dk.contains(d) {
                            let x = choose|x: int| 0 <= x < dk.len() && dk[x] == d;
                            assert(d2[x] == d);
                        }
                        if d == nm {
                            assert(d2[dk.len() as int] == nm);
                        }
                    }
                }
            }
        }
        k = k + 1;
    }
    assert(names_view(declared_all@).subrange(0, declared_all@.len() as int) =~= names_view(
        declared_all@,
    ));
    let ghost decl = names_view(declared@);
    let ghost unsorted_v = keyed_view(keyed@);
    let sorted = stable_sort_by_key(keyed);
    proof {
        lemma_stable_sort_map(unsorted_v, keyed_view(sorted@), view_fn);
        assert(map_items(unsorted_v, view_fn) =~= category_unsorted(
            inventory@,
            manifest@,
            provider@,
            decl,
        ));
    }
    let ghost sorted_v = map_items(keyed_view(sorted@), view_fn);
    let mut items: Vec<ToolItem> = Vec::new();
    let mut rest = sorted;
    let ghost all = rest@;
    let n = rest.len();
    let mut m: usize = 0;
    while m < n
        invariant
            n == all.len(),
            m <= n,
            rest@ == all.subrange(m as int, n as int),
            items@ == all.subrange(0, m as int).map_values(|e: (Vec<i128>, ToolItem)| e.1),
        decreases n - m,
    {
        let ghost rv = rest@;
        let e = rest.remove(0);
        assert(e == all[m as int]);
        assert(rest@ =~= all.subrange(m + 1, n as int));
        items.push(e.1);
        assert(items@ =~= all.subrange(0, m + 1).map_values(|e: (Vec<i128>, ToolItem)| e.1));
        m = m + 1;
    }
    proof {
        assert(all.subrange(0, n as int) =~= all);
        assert(items@.map_values(|t: ToolItem| t.view()) =~= sorted_v.map_values(
            |e: (Seq<i128>, ToolItemView)| e.1,
        ));
    }
    ToolCategory { provider: provider.to_owned(), items }
}

/// The message of a failed command: its error output, trimmed, or where
/// that is empty, that the program exited with its status.
pub open spec fn spec_command_error(program: Seq<char>, stderr: Seq<char>, status: Seq<char>) -> Seq<
    char,
> {
    let detail = spec_trim(stderr);
    if detail.len() == 0 {
        program + " exited with "@ + status
    } else {
        detail
    }
}

/// The message of a failed command, from its error output as bytes and its
/// exit status in words (see `spec_command_error`).
pub fn command_error(program: &str, stderr: &[u8], status: &str) -> (msg: String)
    ensures
        msg@ == spec_command_error(program@, utf8_lossy(stderr@), status@),
{
    let text = decode_lossy(stderr);
    let cs = chars_of(text.as_str());
    let (a, b) = trim_bounds(&cs, 0, cs.len());
    assert(cs@.subrange(0, cs@.len() as int) =~= text@);
    if a == b {
        program.to_owned().concat(" exited with ").concat(status)
    } else {
        string_of_range(&cs, a, b)
    }
}

/// How many listed packages have each status kind: present (installed or
/// outdated), outdated, and in conflict.
pub open spec fn status_counts(items: Seq<ToolItemView>) -> (nat, nat, nat)
    decreases items.len(),
{
    if items.len() == 0 {
        (0, 0, 0)
    } else {
        let r = status_counts(items.drop_last());
        let s = items.last().status;
        (
            r.0 + if is_present(s) {
                1nat
            } else {
                0nat
            },
            r.1 + if s == ToolStatus::Outdated {
                1nat
            } else {
                0nat
            },
            r.2 + if s == ToolStatus::Conflict {
                1nat
            } else {
                0nat
            },
        )
    }
}

proof fn lemma_status_counts_bound(items: Seq<ToolItemView>)
    ensures
        status_counts(items).0 <= items.len(),
        status_counts(items).1 <= items.len(),
        status_counts(items).2 <= items.len(),
    decreases items.len(),
{
    if items.len() > 0 {
        lemma_status_counts_bound(items.drop_last());
    }
}

/// The listings of all categories, in order.
pub open spec fn all_items(cats: Seq<ToolCategory>) -> Seq<ToolItemView>
    decreases cats.len(),
{
    if cats.len() == 0 {
        Seq::empty()
    } else {
        all_items(cats.drop_last()) + cats.last().items@.map_values(|t: ToolItem| t.view())
    }
}

/// The counts the tools page shows over all categories (see
/// `status_counts`), each cut to 32 bits.
pub fn snapshot_counts(categories: &Vec<ToolCategory>) -> (r: (u32, u32, u32))
    requires
        all_items(categories@).len() <= u64::MAX,
    ensures
        r.0 == status_counts(all_items(categories@)).0 as u32,
        r.1 == status_counts(all_items(categories@)).1 as u32,
        r.2 == status_counts(all_items(categories@)).2 as u32,
{
    let mut installed: u64 = 0;
    let mut updates: u64 = 0;
    let mut conflicts: u64 = 0;
    let ghost mut seen: Seq<ToolItemView> = Seq::empty();
    let mut c: usize = 0;
    while c < categories.len()
        invariant
            c <= categories@.len(),
            all_items(categories@).len() <= u64::MAX,
            seen == all_items(categories@.subrange(0, c as int)),
            (installed as nat, updates as nat, conflicts as nat) == status_counts(seen),
        decreases categories@.len() - c,
    {
        let items = &categories[c].items;
        let ghost cat_items = items@.map_values(|t: ToolItem| t.view());
        assert(categories@.subrange(0, c + 1).drop_last() =~= categories@.subrange(0, c as int));
        assert(all_items(categories@.subrange(0, c + 1)) == seen + cat_items);
        proof {
            lemma_all_items_prefix(categories@, c as int + 1);
        }
        let mut i: usize = 0;
        while i < items.len()
            invariant
                i <= items@.len(),
                cat_items == items@.map_values(|t: ToolItem| t.view()),
                seen.len() + cat_items.len() <= u64::MAX,
                (installed as nat, updates as nat, conflicts as nat) == status_counts(
                    seen + cat_items.subrange(0, i as int),
                ),
            decreases items@.len() - i,
        {
            let st = items[i].status;
            let ghost cur = seen + cat_items.subrange(0, i as int);
            assert((seen + cat_items.subrange(0, i + 1)).drop_last() =~= cur);
            assert((seen + cat_items.subrange(0, i + 1)).last().status == st);
            proof {
                lemma_status_counts_bound(cur);
            }
            if st == ToolStatus::Installed || st == ToolStatus::Outdated {
                installed = installed + 1;
            }
            if st == ToolStatus::Outdated {
                updates = updates + 1;
            }
            if st == ToolStatus::Conflict {
                conflicts = conflicts + 1;
            }
            i = i + 1;
        }
        proof {
            assert(cat_items.subrange(0, cat_items.len() as int) =~= cat_items);
            seen = seen + cat_items;
        }
        c = c + 1;
    }
    assert(categories@.subrange(0, categories@.len() as int) =~= categories@);
    #[verifier::truncate]
    let a = installed as u32;
    #[verifier::truncate]
    let b = updates as u32;
    #[verifier::truncate]
    let d = conflicts as u32;
    (a, b, d)
}

proof fn lemma_all_items_prefix(cats: Seq<ToolCategory>, k: int)
    requires
        0 <= k <= cats.len(),
    ensures
        all_items(cats.subrange(0, k)).len() <= all_items(cats).len(),
    decreases cats.len() - k,
{
    if k < cats.len() {
        lemma_all_items_prefix(cats, k + 1);
        assert(cats.subrange(0, k + 1).drop_last() =~= cats.subrange(0, k));
    } else {
        assert(cats.subrange(0, k) =~= cats);
    }
}

/// `parts` joined with `sep` between them.
pub open spec fn joined(parts: Seq<Seq<char>>, sep: Seq<char>) -> Seq<char>
    decreases parts.len(),
{
    if parts.len() == 0 {
        Seq::empty()
    } else if parts.len() == 1 {
        parts[0]
    } else {
        joined(parts.drop_last(), sep) + sep + parts.last()
    }
}

/// `parts` joined with `sep` between them (see `joined`).
pub fn join_with(parts: &Vec<String>, sep: &str) -> (out: String)
    ensures
        out@ == joined(names_view(parts@), sep@),
{
    let mut out = String::new();
    let mut i: usize = 0;
    while i < parts.len()
        invariant
            i <= parts@.len(),
            out@ == joined(names_view(parts@.subrange(0, i as int)), sep@),
        decreases parts@.len() - i,
    {
        let ghost pre = names_view(parts@.subrange(0, i + 1));
        proof {
            assert(pre.drop_last() =~= names_view(parts@.subrange(0, i as int)));
            assert(pre.last() == parts@[i as int]@);
        }
        if i > 0 {
            out.append(sep);
        }
        out.append(parts[i].as_str());
        i = i + 1;
    }
    proof {
        assert(parts@.subrange(0, parts@.len() as int) =~= parts@);
    }
    out
}

/// An MCP server found in the configuration of an MCP client.
#[derive(Clone, Debug)]
pub struct McpServerFound {
    pub name: String,
    /// Whether the configurations define it differently.
    pub conflict: bool,
    /// Its transport in lower-case words.
    pub transport: String,
    /// The configuration files that define it.
    pub sources: Vec<String>,
}

/// The listing of an MCP server: `managed` is the transport of the server
/// in the manifest, where it is there; `found` is whether the clients'
/// configurations define it differently, its transport there and the files
/// that define it, joined by ", ", where they define it. A managed server is
/// installed and can be forgotten; an unmanaged one defined differently is
/// in conflict; any other is available to adopt.
pub open spec fn mcp_item_view(
    name: Seq<char>,
    managed: Option<Seq<char>>,
    found: Option<(bool, Seq<char>, Seq<char>)>,
) -> ToolItemView {
    let is_managed = managed is Some;
    let conflict = match found {
        Some(f) => f.0,
        None => false,
    };
    let status = if is_managed {
        ToolStatus::Installed
    } else if conflict {
        ToolStatus::Conflict
    } else {
        ToolStatus::Available
    };
    let transport = match managed {
        Some(t) => t,
        None => match found {
            Some(f) => f.1,
            None => "unknown"@,
        },
    };
    let sources = match found {
        Some(f) => f.2,
        None => Seq::empty(),
    };
    let detail = if conflict && !is_managed {
        "Conflicting definitions in "@ + sources
    } else if is_managed && sources.len() == 0 {
        transport + " · Tools managed"@
    } else if is_managed {
        transport + " · Tools managed · imported from "@ + sources
    } else {
        transport + " · configured in "@ + sources
    };
    ToolItemView {
        id: name,
        name,
        version: None,
        detail,
        status,
        managed: is_managed,
        actions: if is_managed {
            seq![ToolAction::Forget]
        } else if status == ToolStatus::Available {
            seq![ToolAction::Adopt]
        } else {
            Seq::empty()
        },
    }
}

/// The index of the first found server named `name`.
pub open spec fn found_index(found: Seq<McpServerFound>, name: Seq<char>, k: int) -> Option<int>
    decreases found.len() - k,
{
    if k < 0 || k >= found.len() {
        None
    } else if found[k].name@ == name {
        Some(k)
    } else {
        found_index(found, name, k + 1)
    }
}

/// The index of the first managed server named `name`.
pub open spec fn managed_index(managed: Seq<(String, String)>, name: Seq<char>, k: int) -> Option<int>
    decreases managed.len() - k,
{
    if k < 0 || k >= managed.len() {
        None
    } else if managed[k].0@ == name {
        Some(k)
    } else {
        managed_index(managed, name, k + 1)
    }
}

fn find_found(found: &Vec<McpServerFound>, name: &str) -> (r: Option<usize>)
    ensures
        match r {
            Some(k) => found_index(found@, name@, 0) == Some(k as int) && k < found@.len(),
            None => found_index(found@, name@, 0) is None,
        },
{
    let mut k: usize = 0;
    while k < found.len()
        invariant
            k <= found@.len(),
            found_index(found@, name@, 0) == found_index(found@, name@, k as int),
        decreases found@.len() - k,
    {
        if str_eq(found[k].name.as_str(), name) {
            return Some(k);
        }
        k = k + 1;
    }
    None
}

fn find_managed(managed: &Vec<(String, String)>, name: &str) -> (r: Option<usize>)
    ensures
        match r {
            Some(k) => managed_index(managed@, name@, 0) == Some(k as int) && k < managed@.len(),
            None => managed_index(managed@, name@, 0) is None,
        },
{
    let mut k: usize = 0;
    while k < managed.len()
        invariant
            k <= managed@.len(),
            managed_index(managed@, name@, 0) == managed_index(managed@, name@, k as int),
        decreases managed@.len() - k,
    {
        if str_eq(managed[k].0.as_str(), name) {
            return Some(k);
        }
        k = k + 1;
    }
    None
}

/// The listing of the MCP server `name` (see `mcp_item_view`), looked up
/// by name among the found servers and the manifest's servers (name and
/// transport).
pub open spec fn mcp_listing(found: Seq<McpServerFound>, managed: Seq<(String, String)>, name: Seq<char>) -> ToolItemView {
    mcp_item_view(
        name,
        match managed_index(managed, name, 0) {
            Some(k) => Some(managed[k].1@),
            None => None,
        },
        match found_index(found, name, 0) {
            Some(k) => Some((found[k].conflict, found[k].transport@, joined(names_view(found[k].sources@), ", "@))),
            None => None,
        },
    )
}

/// The found servers that the manifest takes over: all but the shell's own
/// (`vmux`) and those defined differently, unless the manifest has them.
pub fn adoptable_servers(found: &Vec<McpServerFound>, managed_names: &Vec<String>) -> (picked: Vec<usize>)
    ensures
        forall|j: int| 0 <= j < picked@.len() ==> #[trigger] picked@[j] < found@.len(),
        forall|k: int|
            0 <= k < found@.len() ==> (picked@.contains(k as usize) <==> (found@[k].name@ != "vmux"@
                && !found@[k].conflict && !names_view(managed_names@).contains(found@[k].name@))),
{
    let mut picked: Vec<usize> = Vec::new();
    let mut k: usize = 0;
    while k < found.len()
        invariant
            k <= found@.len(),
            forall|j: int| 0 <= j < picked@.len() ==> #[trigger] picked@[j] < k,
            forall|m: int|
                0 <= m < k ==> (picked@.contains(m as usize) <==> (found@[m].name@ != "vmux"@
                    && !found@[m].conflict && !names_view(managed_names@).contains(found@[m].name@))),
        decreases found@.len() - k,
    {
        let f = &found[k];
        let mut known = false;
        let mut j: usize = 0;
        while j < managed_names.len()
            invariant
                j <= managed_names@.len(),
                known == names_view(managed_names@.subrange(0, j as int)).contains(f.name@),
            decreases managed_names@.len() - j,
        {
            proof {
                assert(names_view(managed_names@.subrange(0, j + 1)) =~= names_view(
                    managed_names@.subrange(0, j as int),
                ).push(managed_names@[j as int]@));
                vstd::seq_lib::lemma_seq_contains_after_push(
                    names_view(managed_names@.subrange(0, j as int)),
                    managed_names@[j as int]@,
                    f.name@,
                );
            }
            if str_eq(managed_names[j].as_str(), f.name.as_str()) {
                known = true;
            }
            j = j + 1;
        }
        proof {
            assert(managed_names@.subrange(0, managed_names@.len() as int) =~= managed_names@);
        }
        let take = !str_eq(f.name.as_str(), "vmux") && !f.conflict && !known;
        let ghost before = picked@;
        if take {
            picked.push(k);
        }
        proof {
            assert forall|m: int|
                0 <= m < k + 1 implies (picked@.contains(m as usize) <==> (found@[m].name@ != "vmux"@
                    && !found@[m].conflict && !names_view(managed_names@).contains(found@[m].name@))) by {
                if m < k {
                    if picked@.contains(m as usize) {
                        let w = choose|w: int| 0 <= w < picked@.len() && picked@[w] == m as usize;
                        if w < before.len() {
                            assert(before[w] == m as usize);
                        }
                    }
                    if before.contains(m as usize) {
                        let w = choose|w: int| 0 <= w < before.len() && before[w] == m as usize;
                        assert(picked@[w] == m as usize);
                    }
                } else {
                    if take {
                        assert(picked@[before.len() as int] == k);
                    } else {
                        if picked@.contains(k) {
                            let w = choose|w: int| 0 <= w < picked@.len() && picked@[w] == k;
                            assert(before[w] < k);
                        }
                    }
                }
            }
        }
        k = k + 1;
    }
    picked
}

/// The MCP servers of the tools page: every server found or managed, once
/// each in name order, listed by `mcp_listing`.
pub fn mcp_items(found: &Vec<McpServerFound>, managed: &Vec<(String, String)>) -> (items: Vec<ToolItem>)
    ensures
        exists|names: Seq<Seq<char>>|
            {
                &&& strictly_sorted(names)
                &&& (forall|n: Seq<char>| #[trigger] names.contains(n) <==> (exists|k: int|
                    0 <= k < found@.len() && #[trigger] found@[k].name@ == n) || (exists|k: int|
                    0 <= k < managed@.len() && #[trigger] managed@[k].0@ == n))
                &&& items@.len() == names.len()
                &&& forall|j: int| 0 <= j < names.len() ==> #[trigger] items@[j].view() == mcp_listing(found@, managed@, names[j])
            },
{
    let mut all: Vec<String> = Vec::new();
    let mut a: usize = 0;
    while a < found.len()
        invariant
            a <= found@.len(),
            names_view(all@) == found@.subrange(0, a as int).map_values(|f: McpServerFound| f.name@),
        decreases found@.len() - a,
    {
        all.push(found[a].name.clone());
        proof {
            assert(found@.subrange(0, a + 1).map_values(|f: McpServerFound| f.name@) =~= found@.subrange(
                0,
                a as int,
            ).map_values(|f: McpServerFound| f.name@).push(found@[a as int].name@));
            assert(names_view(all@) =~= names_view(all@.drop_last()).push(all@.last()@));
        }
        a = a + 1;
    }
    let ghost fnames = names_view(all@);
    let mut b: usize = 0;
    while b < managed.len()
        invariant
            b <= managed@.len(),
            fnames == found@.map_values(|f: McpServerFound| f.name@),
            names_view(all@) == fnames + managed@.subrange(0, b as int).map_values(|m: (String, String)| m.0@),
        decreases managed@.len() - b,
    {
        all.push(managed[b].0.clone());
        proof {
            assert(managed@.subrange(0, b + 1).map_values(|m: (String, String)| m.0@) =~= managed@.subrange(
                0,
                b as int,
            ).map_values(|m: (String, String)| m.0@).push(managed@[b as int].0@));
            assert(names_view(all@) =~= names_view(all@.drop_last()).push(all@.last()@));
            assert(fnames + managed@.subrange(0, b + 1).map_values(|m: (String, String)| m.0@) =~= (fnames
                + managed@.subrange(0, b as int).map_values(|m: (String, String)| m.0@)).push(
                managed@[b as int].0@,
            ));
        }
        b = b + 1;
    }
    proof {
        assert(found@.subrange(0, found@.len() as int) =~= found@);
        assert(managed@.subrange(0, managed@.len() as int) =~= managed@);
    }
    let names = sorted_name_set(&all);
    let ghost nv = names_view(names@);
    proof {
        assert forall|n: Seq<char>| #[trigger] nv.contains(n) <==> (exists|k: int|
            0 <= k < found@.len() && #[trigger] found@[k].name@ == n) || (exists|k: int|
            0 <= k < managed@.len() && #[trigger] managed@[k].0@ == n) by {
            let av = names_view(all@);
            let fl = found@.len() as int;
            if nv.contains(n) {
                assert(av.contains(n));
                let w = choose|w: int| 0 <= w < av.len() && av[w] == n;
                if w < fl {
                    assert(found@[w].name@ == n);
                } else {
                    assert(managed@[w - fl].0@ == n);
                }
            }
            if exists|k: int| 0 <= k < found@.len() && #[trigger] found@[k].name@ == n {
                let k = choose|k: int| 0 <= k < found@.len() && #[trigger] found@[k].name@ == n;
                assert(av[k] == n);
                assert(av.contains(n));
            }
            if exists|k: int| 0 <= k < managed@.len() && #[trigger] managed@[k].0@ == n {
                let k = choose|k: int| 0 <= k < managed@.len() && #[trigger] managed@[k].0@ == n;
                assert(av[fl + k] == n);
                assert(av.contains(n));
            }
        }
    }
    let mut items: Vec<ToolItem> = Vec::new();
    let mut j: usize = 0;
    while j < names.len()
        invariant
            j <= names@.len(),
            nv == names_view(names@),
            items@.len() == j,
            forall|q: int| 0 <= q < j ==> #[trigger] items@[q].view() == mcp_listing(found@, managed@, nv[q]),
        decreases names@.len() - j,
    {
        let name = names[j].as_str();
        let m = find_managed(managed, name);
        let f = find_found(found, name);
        let is_managed = m.is_some();
        let conflict = match f {
            Some(k) => found[k].conflict,
            None => false,
        };
        let status = if is_managed {
            ToolStatus::Installed
        } else if conflict {
            ToolStatus::Conflict
        } else {
            ToolStatus::Available
        };
        let transport: String = match m {
            Some(k) => managed[k].1.clone(),
            None => match f {
                Some(k) => found[k].transport.clone(),
                None => "unknown".to_owned(),
            },
        };
        let sources: String = match f {
            Some(k) => join_with(&found[k].sources, ", "),
            None => String::new(),
        };
        let detail = if conflict && !is_managed {
            "Conflicting definitions in ".to_owned().concat(sources.as_str())
        } else if is_managed && sources.as_str().is_empty() {
            transport.concat(" · Tools managed")
        } else if is_managed {
            transport.concat(" · Tools managed · imported from ").concat(sources.as_str())
        } else {
            transport.concat(" · configured in ").concat(sources.as_str())
        };
        let mut actions: Vec<ToolAction> = Vec::new();
        if is_managed {
            actions.push(ToolAction::Forget);
        } else if status == ToolStatus::Available {
            actions.push(ToolAction::Adopt);
        }
        let item = ToolItem {
            id: name.to_owned(),
            name: name.to_owned(),
            version: None,
            detail,
            status,
            managed: is_managed,
            actions,
        };
        proof {
            assert(item.actions@ =~= mcp_listing(found@, managed@, nv[j as int]).actions);
        }
        items.push(item);
        j = j + 1;
    }
    items
}

/// What linking a dotfile package would do: the links in place, the links
/// missing, and the files in the way.
#[derive(Clone, Copy, Debug, PartialEq, Eq, Structural)]
pub struct DotfilePlan {
    pub linked: u64,
    pub missing: u64,
    pub conflicts: u64,
}

/// The listing of a dotfile package whose link plan is `plan` (or the error
/// that stopped planning): files in the way make a conflict; missing links
/// make it missing when managed and available otherwise; else it is
/// installed. A planned package can be linked, and unlinked when managed; a
/// package that could not be planned can only be unlinked, when managed.
pub open spec fn dotfile_item_view(name: Seq<char>, managed: bool, plan: Result<DotfilePlan, Seq<char>>) -> ToolItemView {
    let (status, detail, actions) = match plan {
        Ok(p) => (
            if p.conflicts > 0 {
                ToolStatus::Conflict
            } else if p.missing > 0 {
                if managed {
                    ToolStatus::Missing
                } else {
                    ToolStatus::Available
                }
            } else {
                ToolStatus::Installed
            },
            decimal_chars(p.linked as nat) + " linked · "@ + decimal_chars(p.missing as nat)
                + " missing · "@ + decimal_chars(p.conflicts as nat) + " conflicts"@,
            if managed {
                seq![ToolAction::Link, ToolAction::Unlink]
            } else {
                seq![ToolAction::Link]
            },
        ),
        Err(e) => (ToolStatus::Missing, e, if managed {
            seq![ToolAction::Unlink]
        } else {
            Seq::empty()
        }),
    };
    ToolItemView { id: name, name, version: None, detail, status, managed, actions }
}

/// The listing of a dotfile package (see `dotfile_item_view`).
pub fn dotfile_item(name: &str, managed: bool, plan: Result<DotfilePlan, String>) -> (item: ToolItem)
    ensures
        item.view() == dotfile_item_view(
            name@,
            managed,
            match plan {
                Ok(p) => Ok(p),
                Err(e) => Err(e@),
            },
        ),
{
    let ghost pv = match &plan {
        Ok(p) => Ok(*p),
        Err(e) => Err(e@),
    };
    let (status, detail, actions) = match plan {
        Ok(p) => {
            let status = if p.conflicts > 0 {
                ToolStatus::Conflict
            } else if p.missing > 0 {
                if managed {
                    ToolStatus::Missing
                } else {
                    ToolStatus::Available
                }
            } else {
                ToolStatus::Installed
            };
            let mut detail = String::new();
            push_decimal_str(&mut detail, p.linked);
            detail.append(" linked · ");
            push_decimal_str(&mut detail, p.missing);
            detail.append(" missing · ");
            push_decimal_str(&mut detail, p.conflicts);
            detail.append(" conflicts");
            let mut actions: Vec<ToolAction> = Vec::new();
            actions.push(ToolAction::Link);
            if managed {
                actions.push(ToolAction::Unlink);
            }
            (status, detail, actions)
        },
        Err(e) => {
            let mut actions: Vec<ToolAction> = Vec::new();
            if managed {
                actions.push(ToolAction::Unlink);
            }
            (ToolStatus::Missing, e, actions)
        },
    };
    let item = ToolItem {
        id: name.to_owned(),
        name: name.to_owned(),
        version: None,
        detail,
        status,
        managed,
        actions,
    };
    proof {
        let ghost v = dotfile_item_view(name@, managed, pv);
        assert(item.actions@ =~= v.actions);
        assert(item.detail@ =~= v.detail);
    }
    item
}

/// What a provider holds: packages of a package manager, MCP servers, or
/// dotfile packages.
#[derive(Clone, Copy, Debug, PartialEq, Eq, Structural)]
pub enum ToolProviderKind {
    Package,
    Mcp,
    Dotfiles,
}

/// One step of carrying out a tools-page action, run in order; the first
/// that fails ends the action with its error.
#[derive(Clone, Debug, PartialEq, Eq)]
pub enum ToolStep {
    /// Apply the whole manifest (its message is the action's).
    ApplyManifest,
    /// Import the provider's packages from `path`, or from a scan when empty
    /// (its message is the action's).
    Import { path: String },
    /// Mark the package managed or not in the manifest.
    SetManaged(bool),
    Install,
    Update,
    Uninstall,
    /// Move the dotfile at `path` into the package `name`.
    AdoptDotfile { path: String, name: String },
    /// Take the discovered MCP server into the manifest.
    ImportMcpServer,
    /// Link the dotfile package's files.
    LinkDotfiles,
    /// Unlink the dotfile package's files; a package that does not exist
    /// counts as none unlinked.
    UnlinkDotfiles,
}

/// A step as a mathematical value.
pub enum StepView {
    ApplyManifest,
    Import(Seq<char>),
    SetManaged(bool),
    Install,
    Update,
    Uninstall,
    AdoptDotfile(Seq<char>, Seq<char>),
    ImportMcpServer,
    LinkDotfiles,
    UnlinkDotfiles,
}

impl ToolStep {
    pub open spec fn view(self) -> StepView {
        match self {
            ToolStep::ApplyManifest => StepView::ApplyManifest,
            ToolStep::Import { path } => StepView::Import(path@),
            ToolStep::SetManaged(b) => StepView::SetManaged(b),
            ToolStep::Install => StepView::Install,
            ToolStep::Update => StepView::Update,
            ToolStep::Uninstall => StepView::Uninstall,
            ToolStep::AdoptDotfile { path, name } => StepView::AdoptDotfile(path@, name@),
            ToolStep::ImportMcpServer => StepView::ImportMcpServer,
            ToolStep::LinkDotfiles => StepView::LinkDotfiles,
            ToolStep::UnlinkDotfiles => StepView::UnlinkDotfiles,
        }
    }
}

/// The steps of an action on the package `id` of a provider of kind `kind`,
/// with the request's text `value`: applying and importing are one step
/// each (importing from the trimmed value); any other action needs a
/// package name that is not blank. Installing and updating mark the package
/// managed first; uninstalling unmarks it after; forgetting only unmarks it.
/// Adopting moves a dotfile in (its trimmed path is needed), takes an MCP
/// server in, or marks a package managed. Linking and unlinking are for
/// dotfiles only.
pub open spec fn spec_action_steps(action: ToolAction, kind: ToolProviderKind, id: Seq<char>, value: Seq<char>) -> Result<
    Seq<StepView>,
    Seq<char>,
> {
    if action == ToolAction::Apply {
        Ok(seq![StepView::ApplyManifest])
    } else if action == ToolAction::Import {
        Ok(seq![StepView::Import(spec_trim(value))])
    } else if spec_trim(id).len() == 0 {
        Err("package name is required"@)
    } else {
        match action {
            ToolAction::Install => Ok(seq![StepView::SetManaged(true), StepView::Install]),
            ToolAction::Update => Ok(seq![StepView::SetManaged(true), StepView::Update]),
            ToolAction::Uninstall => Ok(seq![StepView::Uninstall, StepView::SetManaged(false)]),
            ToolAction::Forget => Ok(seq![StepView::SetManaged(false)]),
            ToolAction::Adopt => if kind == ToolProviderKind::Dotfiles {
                if spec_trim(value).len() == 0 {
                    Err("dotfile path is required"@)
                } else {
                    Ok(seq![StepView::AdoptDotfile(spec_trim(value), spec_trim(id))])
                }
            } else if kind == ToolProviderKind::Mcp {
                Ok(seq![StepView::ImportMcpServer])
            } else {
                Ok(seq![StepView::SetManaged(true)])
            },
            ToolAction::Link => if kind != ToolProviderKind::Dotfiles {
                Err("link is only valid for dotfiles"@)
            } else {
                Ok(seq![StepView::SetManaged(true), StepView::LinkDotfiles])
            },
            _ => if kind != ToolProviderKind::Dotfiles {
                Err("unlink is only valid for dotfiles"@)
            } else {
                Ok(seq![StepView::UnlinkDotfiles, StepView::SetManaged(false)])
            },
        }
    }
}

fn trimmed(s: &str) -> (t: String)
    ensures
        t@ == spec_trim(s@),
{
    let cs = chars_of(s);
    let (a, b) = trim_bounds(&cs, 0, cs.len());
    proof {
        assert(cs@.subrange(0, cs@.len() as int) =~= s@);
    }
    string_of_range(&cs, a, b)
}

/// The steps of a tools-page action (see `spec_action_steps`).
pub fn tool_action_steps(action: ToolAction, kind: ToolProviderKind, id: &str, value: &str) -> (r: Result<
    Vec<ToolStep>,
    String,
>)
    ensures
        match (r, spec_action_steps(action, kind, id@, value@)) {
            (Ok(steps), Ok(sv)) => steps@.map_values(|s: ToolStep| s.view()) == sv,
            (Err(e), Err(ev)) => e@ == ev,
            _ => false,
        },
{
    let mut steps: Vec<ToolStep> = Vec::new();
    if action == ToolAction::Apply {
        steps.push(ToolStep::ApplyManifest);
    } else if action == ToolAction::Import {
        steps.push(ToolStep::Import { path: trimmed(value) });
    } else {
        let name = trimmed(id);
        if name.as_str().is_empty() {
            return Err("package name is required".to_owned());
        }
        match action {
            ToolAction::Install => {
                steps.push(ToolStep::SetManaged(true));
                steps.push(ToolStep::Install);
            },
            ToolAction::Update => {
                steps.push(ToolStep::SetManaged(true));
                steps.push(ToolStep::Update);
            },
            ToolAction::Uninstall => {
                steps.push(ToolStep::Uninstall);
                steps.push(ToolStep::SetManaged(false));
            },
            ToolAction::Forget => {
                steps.push(ToolStep::SetManaged(false));
            },
            ToolAction::Adopt => {
                if kind == ToolProviderKind::Dotfiles {
                    let path = trimmed(value);
                    if path.as_str().is_empty() {
                        return Err("dotfile path is required".to_owned());
                    }
                    steps.push(ToolStep::AdoptDotfile { path, name });
                } else if kind == ToolProviderKind::Mcp {
                    steps.push(ToolStep::ImportMcpServer);
                } else {
                    steps.push(ToolStep::SetManaged(true));
                }
            },
            ToolAction::Link => {
                if kind != ToolProviderKind::Dotfiles {
                    return Err("link is only valid for dotfiles".to_owned());
                }
                steps.push(ToolStep::SetManaged(true));
                steps.push(ToolStep::LinkDotfiles);
            },
            _ => {
                if kind != ToolProviderKind::Dotfiles {
                    return Err("unlink is only valid for dotfiles".to_owned());
                }
                steps.push(ToolStep::UnlinkDotfiles);
                steps.push(ToolStep::SetManaged(false));
            },
        }
    }
    proof {
        let ghost sv = steps@.map_values(|s: ToolStep| s.view());
        match spec_action_steps(action, kind, id@, value@) {
            Ok(x) => {
                assert(sv =~= x);
            },
            Err(_) => {},
        }
    }
    Ok(steps)
}

/// The message of an action whose steps all succeeded: `destination` is
/// where an adopted dotfile went, `count` how many files were linked or
/// unlinked. Applying and importing report their own messages.
pub open spec fn spec_action_message(
    action: ToolAction,
    kind: ToolProviderKind,
    id: Seq<char>,
    destination: Seq<char>,
    count: nat,
) -> Seq<char> {
    match action {
        ToolAction::Install => id + " installed"@,
        ToolAction::Update => id + " updated"@,
        ToolAction::Uninstall => id + " removed"@,
        ToolAction::Forget => id + " removed from tools.toml"@,
        ToolAction::Adopt => if kind == ToolProviderKind::Dotfiles {
            "adopted "@ + destination
        } else {
            id + " is now managed"@
        },
        ToolAction::Link => "linked "@ + decimal_chars(count) + " file(s)"@,
        ToolAction::Unlink => "unlinked "@ + decimal_chars(count) + " file(s)"@,
        _ => Seq::empty(),
    }
}

/// The message of a completed action (see `spec_action_message`).
pub fn tool_action_message(action: ToolAction, kind: ToolProviderKind, id: &str, destination: &str, count: u64) -> (m: String)
    ensures
        m@ == spec_action_message(action, kind, id@, destination@, count as nat),
{
    match action {
        ToolAction::Install => id.to_owned().concat(" installed"),
        ToolAction::Update => id.to_owned().concat(" updated"),
        ToolAction::Uninstall => id.to_owned().concat(" removed"),
        ToolAction::Forget => id.to_owned().concat(" removed from tools.toml"),
        ToolAction::Adopt => if kind == ToolProviderKind::Dotfiles {
            "adopted ".to_owned().concat(destination)
        } else {
            id.to_owned().concat(" is now managed")
        },
        ToolAction::Link => {
            let mut m = "linked ".to_owned();
            push_decimal_str(&mut m, count);
            m.append(" file(s)");
            m
        },
        ToolAction::Unlink => {
            let mut m = "unlinked ".to_owned();
            push_decimal_str(&mut m, count);
            m.append(" file(s)");
            m
        },
        _ => String::new(),
    }
}

/// The outcome of unlinking a dotfile package: an error saying the package
/// does not exist counts as no file unlinked; any other error stands.
pub fn unlink_outcome(result: Result<u64, String>) -> (r: Result<u64, String>)
    ensures
        match result {
            Ok(n) => r == Ok::<u64, String>(n),
            Err(e) => if contains_text(e@, "does not exist"@) {
                r == Ok::<u64, String>(0)
            } else {
                r matches Err(x) && x@ == e@
            },
        },
{
    match result {
        Ok(n) => Ok(n),
        Err(e) => {
            let cs = chars_of(e.as_str());
            let pat = chars_of("does not exist");
            proof {
                reveal_strlit("does not exist");
            }
            if text_contains(&cs, &pat) {
                Ok(0)
            } else {
                Err(e)
            }
        },
    }
}

/// The inventory item of a Homebrew package `name` at `version`: outdated
/// when `brew outdated` lists it; every package can be uninstalled but the
/// shell's own cask.
pub open spec fn homebrew_item_ok(item: InventoryItem, name: Seq<char>, version: Option<Seq<char>>, cask: bool, outdated: Seq<Seq<char>>) -> bool {
    &&& item.id@ == name
    &&& item.name@ == name
    &&& match item.version {
        Some(v) => version == Some(v@),
        None => version is None,
    }
    &&& item.detail@ == if cask {
        "Homebrew cask"@
    } else {
        "Homebrew formula"@
    }
    &&& item.status == if outdated.contains(name) {
        ToolStatus::Outdated
    } else {
        ToolStatus::Installed
    }
    &&& item.removable == (!cask || name != "vmux"@)
}

/// The inventory of Homebrew formulae or casks from the entries of `brew
/// list --versions` and the names `brew outdated` printed.
pub fn homebrew_items(entries: Vec<(String, Option<String>)>, outdated: &Vec<String>, cask: bool) -> (items: Vec<InventoryItem>)
    ensures
        items@.len() == entries@.len(),
        forall|i: int|
            0 <= i < items@.len() ==> homebrew_item_ok(
                #[trigger] items@[i],
                entries@[i].0@,
                match entries@[i].1 {
                    Some(v) => Some(v@),
                    None => None,
                },
                cask,
                names_view(outdated@),
            ),
{
    let mut items: Vec<InventoryItem> = Vec::new();
    let mut i: usize = 0;
    while i < entries.len()
        invariant
            i <= entries@.len(),
            items@.len() == i,
            forall|q: int|
                0 <= q < i ==> homebrew_item_ok(
                    #[trigger] items@[q],
                    entries@[q].0@,
                    match entries@[q].1 {
                        Some(v) => Some(v@),
                        None => None,
                    },
                    cask,
                    names_view(outdated@),
                ),
        decreases entries@.len() - i,
    {
        let name = &entries[i].0;
        let version = match &entries[i].1 {
            Some(v) => Some(v.clone()),
            None => None,
        };
        let status = if contains_name(outdated, name.as_str()) {
            ToolStatus::Outdated
        } else {
            ToolStatus::Installed
        };
        let removable = !cask || !str_eq(name.as_str(), "vmux");
        let detail = if cask {
            "Homebrew cask".to_owned()
        } else {
            "Homebrew formula".to_owned()
        };
        items.push(InventoryItem { id: name.clone(), name: name.clone(), version, detail, status, removable });
        i = i + 1;
    }
    items
}

/// A repository of the user's knowledge vault host account.
#[derive(Clone, Debug)]
pub struct VaultRepository {
    pub name: String,
    pub url: String,
    pub private: bool,
    pub empty: bool,
}

/// The state of the knowledge vault as shown in the tools view.
#[derive(Clone, Debug)]
pub struct VaultSnapshot {
    pub root: String,
    pub initialized: bool,
    pub remote: String,
    pub branch: String,
    pub dirty: u32,
    pub ahead: u32,
    pub behind: u32,
    pub github_owner: String,
    pub repositories: Vec<VaultRepository>,
    pub error: String,
}

/// Whether a fresh vault status keeps the account data of the previous
/// snapshot: only when repositories were not loaded and the vault has no
/// remote to load them from.
pub open spec fn keeps_previous_account(load_repositories: bool, fresh: VaultSnapshot) -> bool {
    !load_repositories && (!fresh.initialized || fresh.remote@.len() == 0)
}

/// The vault snapshot after a scan: the fresh status, except that a scan
/// that did not load repositories keeps the previous owner, repositories and
/// error while the vault is not connected to a remote.
pub fn merge_vault_snapshot(load_repositories: bool, fresh: VaultSnapshot, previous: VaultSnapshot) -> (r:
    VaultSnapshot)
    ensures
        r.root == fresh.root,
        r.initialized == fresh.initialized,
        r.remote == fresh.remote,
        r.branch == fresh.branch,
        r.dirty == fresh.dirty,
        r.ahead == fresh.ahead,
        r.behind == fresh.behind,
        keeps_previous_account(load_repositories, fresh) ==> {
            &&& r.github_owner == previous.github_owner
            &&& r.repositories == previous.repositories
            &&& r.error == previous.error
        },
        !keeps_previous_account(load_repositories, fresh) ==> {
            &&& r.github_owner == fresh.github_owner
            &&& r.repositories == fresh.repositories
            &&& r.error == fresh.error
        },
{
    let mut snapshot = fresh;
    if !load_repositories && (!snapshot.initialized || snapshot.remote.as_str().is_empty()) {
        snapshot.github_owner = previous.github_owner;
        snapshot.repositories = previous.repositories;
        snapshot.error = previous.error;
    }
    snapshot
}

/// The packages of the output of `npm list --global --json`: the error text
/// where the bytes are no JSON, else one package per member of the
/// document's `dependencies` object, in order (see `npm_item_ok`).
pub fn parse_npm_inventory(bytes: &[u8], outdated: &Vec<String>) -> (r: Result<Vec<InventoryItem>, String>)
    ensures
        match json_parse_of(bytes@) {
            Err(e) => r matches Err(m) && m@ == e,
            Ok(doc) => r matches Ok(items) && {
                &&& items@.len() == npm_dependencies(doc).len()
                &&& forall|i: int|
                    0 <= i < items@.len() ==> npm_item_ok(
                        #[trigger] items@[i],
                        npm_dependencies(doc)[i],
                        names_view(outdated@),
                    )
            },
        },
{
    match parse_json(bytes) {
        Ok(doc) => Ok(npm_inventory(&doc, outdated)),
        Err(e) => Err(e),
    }
}

/// The member names of a JSON object, in order.
pub open spec fn object_names(doc: Result<JsonView, Seq<char>>) -> Seq<Seq<char>> {
    match doc {
        Ok(JsonView::Object(es)) => es.map_values(|e: (Seq<char>, JsonView)| e.0),
        _ => Seq::empty(),
    }
}

/// The packages `npm outdated --global --json` lists: the member names of
/// its output when that is a JSON object, else none.
pub fn npm_outdated_names(bytes: &[u8]) -> (names: Vec<String>)
    ensures
        names_view(names@) == object_names(json_parse_of(bytes@)),
{
    let mut names: Vec<String> = Vec::new();
    match parse_json(bytes) {
        Ok(JsonValue::Object(es)) => {
            proof {
                crate::settings_path::lemma_object_view_pub(es);
            }
            let ghost mv = members_view(es@);
            let mut i: usize = 0;
            while i < es.len()
                invariant
                    i <= es@.len(),
                    names@.len() == i,
                    mv == members_view(es@),
                    names_view(names@) == mv.subrange(0, i as int).map_values(
                        |e: (Seq<char>, JsonView)| e.0,
                    ),
                decreases es@.len() - i,
            {
                let ghost before = names@;
                names.push(es[i].0.clone());
                proof {
                    assert(names@ == before.push(es@[i as int].0));
                    assert(mv[i as int].0 == es@[i as int].0@);
                    let prev = mv.subrange(0, i as int).map_values(|e: (Seq<char>, JsonView)| e.0);
                    assert forall|k: int| 0 <= k <= i implies #[trigger] names@[k]@ == mv[k].0 by {
                        if k < i {
                            assert(names_view(before)[k] == prev[k]);
                        }
                    }
                    assert(names_view(names@) =~= mv.subrange(0, i as int + 1).map_values(
                        |e: (Seq<char>, JsonView)| e.0,
                    ));
                }
                i = i + 1;
            }
            proof {
                assert(mv.subrange(0, mv.len() as int) =~= mv);
            }
        },
        _ => {},
    }
    names
}

} // verus!
