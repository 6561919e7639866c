//! The registries of sessions and of spaces: records with a protected
//! default, the rows the list views show, the once-per-body broadcast to
//! those views, and the commands the views send back.
use crate::decimal::{decimal_chars, push_decimal_str};
use crate::text::str_eq;
use std::collections::HashSet;
use vstd::prelude::*;
use vstd::string::*;

verus! {

broadcast use vstd::std_specs::hash::group_hash_axioms;

/// A session or space: its id, its display name and its browser profile.
#[derive(Clone, Debug, PartialEq, Eq)]
pub struct RegistryRecord {
    pub id: String,
    pub name: String,
    pub profile: String,
}

/// A record as a mathematical value.
pub struct RecordView {
    pub id: Seq<char>,
    pub name: Seq<char>,
    pub profile: Seq<char>,
}

impl RegistryRecord {
    pub open spec fn view(self) -> RecordView {
        RecordView { id: self.id@, name: self.name@, profile: self.profile@ }
    }

    fn duplicate(&self) -> (r: Self)
        ensures
            r.view() == self.view(),
    {
        RegistryRecord { id: self.id.clone(), name: self.name.clone(), profile: self.profile.clone() }
    }
}

/// The records as mathematical values.
pub open spec fn records_view(rs: Seq<RegistryRecord>) -> Seq<RecordView> {
    rs.map_values(|r: RegistryRecord| r.view())
}

/// The id of the record that cannot be deleted.
pub open spec fn default_id() -> Seq<char> {
    "default"@
}

/// Whether some record has the id `id`.
pub open spec fn has_id(rs: Seq<RecordView>, id: Seq<char>) -> bool {
    exists|i: int| 0 <= i < rs.len() && #[trigger] rs[i].id == id
}

/// The index of the first record with the id `id`.
pub open spec fn position_of(rs: Seq<RecordView>, id: Seq<char>) -> Option<int>
    decreases rs.len(),
{
    if rs.len() == 0 {
        None
    } else {
        match position_of(rs.drop_last(), id) {
            Some(i) => Some(i),
            None => if rs.last().id == id {
                Some(rs.len() - 1)
            } else {
                None
            },
        }
    }
}

proof fn lemma_position_of(rs: Seq<RecordView>, id: Seq<char>)
    ensures
        match position_of(rs, id) {
            Some(i) => 0 <= i < rs.len() && rs[i].id == id && forall|j: int|
                0 <= j < i ==> #[trigger] rs[j].id != id,
            None => forall|j: int| 0 <= j < rs.len() ==> #[trigger] rs[j].id != id,
        },
    decreases rs.len(),
{
    if rs.len() > 0 {
        lemma_position_of(rs.drop_last(), id);
        assert(forall|j: int| 0 <= j < rs.len() - 1 ==> rs[j] == rs.drop_last()[j]);
    }
}

fn position_exec(rs: &Vec<RegistryRecord>, id: &str) -> (r: Option<usize>)
    ensures
        match r {
            Some(i) => position_of(records_view(rs@), id@) == Some(i as int) && i < rs@.len(),
            None => position_of(records_view(rs@), id@) is None,
        },
{
    let ghost v = records_view(rs@);
    proof {
        lemma_position_of(v, id@);
    }
    let mut i: usize = 0;
    while i < rs.len()
        invariant
            v == records_view(rs@),
            i <= rs@.len(),
            forall|j: int| 0 <= j < i ==> #[trigger] v[j].id != id@,
            match position_of(v, id@) {
                Some(x) => 0 <= x < v.len() && v[x].id == id@ && forall|j: int|
                    0 <= j < x ==> #[trigger] v[j].id != id@,
                None => forall|j: int| 0 <= j < v.len() ==> #[trigger] v[j].id != id@,
            },
        decreases rs@.len() - i,
    {
        if str_eq(rs[i].id.as_str(), id) {
            assert(v[i as int].id == id@);
            return Some(i);
        }
        assert(v[i as int].id != id@);
        i = i + 1;
    }
    None
}

/// A registry as read from disk: an empty one gets the default record, and
/// one without a record of the default id gets it in front.
pub open spec fn spec_normalized(rs: Seq<RecordView>, default: RecordView) -> Seq<RecordView> {
    let r1 = if rs.len() == 0 {
        seq![default]
    } else {
        rs
    };
    if has_id(r1, default_id()) {
        r1
    } else {
        seq![default] + r1
    }
}

/// A completed registry is never empty and always holds a record of the
/// default id, given a default record that has it.
pub proof fn law_normalized_has_default(rs: Seq<RecordView>, default: RecordView)
    requires
        default.id == default_id(),
    ensures
        spec_normalized(rs, default).len() > 0,
        has_id(spec_normalized(rs, default), default_id()),
{
    let n = spec_normalized(rs, default);
    let r1 = if rs.len() == 0 {
        seq![default]
    } else {
        rs
    };
    if !has_id(r1, default_id()) {
        assert(n[0] == default);
    } else if rs.len() == 0 {
        assert(n[0] == default);
    }
}

/// Completes a registry read from disk (see `spec_normalized`).
pub fn normalize_registry(records: &mut Vec<RegistryRecord>, default: &RegistryRecord)
    ensures
        records_view(final(records)@) == spec_normalized(records_view(old(records)@), default.view()),
{
    let ghost r0 = records_view(records@);
    if records.len() == 0 {
        records.push(default.duplicate());
        assert(records_view(records@) =~= seq![default.view()]);
    }
    let ghost r1 = records_view(records@);
    match position_exec(records, "default") {
        Some(i) => {
            proof {
                lemma_position_of(r1, default_id());
            }
        },
        None => {
            proof {
                lemma_position_of(r1, default_id());
            }
            records.insert(0, default.duplicate());
            assert(records_view(records@) =~= seq![default.view()] + r1);
        },
    }
}

/// The record a session or space view starts on: the default record, else
/// the first, else `fallback`.
pub fn initial_record(records: &Vec<RegistryRecord>, fallback: &RegistryRecord) -> (r:
    RegistryRecord)
    ensures
        r.view() == match position_of(records_view(records@), default_id()) {
            Some(i) => records_view(records@)[i],
            None => if records@.len() > 0 {
                records_view(records@)[0]
            } else {
                fallback.view()
            },
        },
{
    match position_exec(records, "default") {
        Some(i) => records[i].duplicate(),
        None => {
            if records.len() > 0 {
                records[0].duplicate()
            } else {
                fallback.duplicate()
            }
        },
    }
}

/// Deletes the first record with the id `id`, unless `id` is the default id:
/// the default record is never deleted.
pub fn delete_record(records: &mut Vec<RegistryRecord>, id: &str) -> (deleted: Option<
    RegistryRecord,
>)
    ensures
        id@ == default_id() ==> deleted is None && final(records)@ == old(records)@,
        id@ != default_id() ==> match position_of(records_view(old(records)@), id@) {
            Some(i) => deleted matches Some(d) && d == old(records)@[i] && final(records)@
                == old(records)@.remove(i),
            None => deleted is None && final(records)@ == old(records)@,
        },
{
    if str_eq(id, "default") {
        return None;
    }
    match position_exec(records, id) {
        Some(i) => Some(records.remove(i)),
        None => None,
    }
}

/// One line of the session or space list.
#[derive(Clone, Debug, PartialEq, Eq)]
pub struct RecordRow {
    pub id: String,
    pub name: String,
    pub profile: String,
    pub is_active: bool,
    pub count: u32,
}

/// The list rows: each record, marked active when its id is the active
/// one, the active one counting `active_count` (cut to 32 bits) and the
/// others nothing.
pub open spec fn row_ok(row: RecordRow, rec: RecordView, active_id: Seq<char>, active_count: usize) -> bool {
    &&& row.id@ == rec.id
    &&& row.name@ == rec.name
    &&& row.profile@ == rec.profile
    &&& row.is_active == (rec.id == active_id)
    &&& row.count == if rec.id == active_id {
        active_count as u32
    } else {
        0u32
    }
}

/// The list rows (see `row_ok`).
pub fn registry_rows(records: &Vec<RegistryRecord>, active_id: &str, active_count: usize) -> (rows:
    Vec<RecordRow>)
    ensures
        rows@.len() == records@.len(),
        forall|i: int|
            0 <= i < rows@.len() ==> row_ok(
                #[trigger] rows@[i],
                records@[i].view(),
                active_id@,
                active_count,
            ),
{
    let mut rows: Vec<RecordRow> = Vec::new();
    let mut i: usize = 0;
    while i < records.len()
        invariant
            i <= records@.len(),
            rows@.len() == i,
            forall|j: int|
                0 <= j < i ==> row_ok(#[trigger] rows@[j], records@[j].view(), active_id@, active_count),
        decreases records@.len() - i,
    {
        let r = &records[i];
        let is_active = str_eq(r.id.as_str(), active_id);
        #[verifier::truncate]
        let count: u32 = if is_active {
            active_count as u32
        } else {
            0
        };
        rows.push(
            RecordRow {
                id: r.id.clone(),
                name: r.name.clone(),
                profile: r.profile.clone(),
                is_active,
                count,
            },
        );
        i = i + 1;
    }
    rows
}

/// What each list view was last sent: the body, and the views that have it.
#[derive(Debug)]
pub struct EmitCache {
    pub body: String,
    pub sent: HashSet<u64>,
}

impl EmitCache {
    /// Nothing sent yet.
    pub fn new() -> (c: Self)
        ensures
            c.body@.len() == 0,
            c.sent@ == Set::<u64>::empty(),
    {
        EmitCache { body: String::new(), sent: HashSet::new() }
    }
}

/// What an emit does to the views that have the body: with `last` the body
/// sent before and `had` the views that have it, sending `body` to the ready
/// views `ready` reaches exactly the ready views that do not have `body`
/// yet, each once, and leaves `now_have` with it.
pub open spec fn emitted(
    last: Seq<char>,
    had: Set<u64>,
    ready: Seq<u64>,
    body: Seq<char>,
    now_have: Set<u64>,
    targets: Seq<u64>,
) -> bool {
    let base = if last == body {
        had
    } else {
        Set::<u64>::empty()
    };
    &&& now_have == base.union(ready.to_set())
    &&& (forall|i: int| 0 <= i < targets.len() ==> !base.contains(#[trigger] targets[i]))
    &&& (forall|i: int| 0 <= i < targets.len() ==> ready.contains(#[trigger] targets[i]))
    &&& (forall|v: u64| #[trigger] ready.contains(v) && !base.contains(v) ==> targets.contains(v))
    &&& targets.no_duplicates()
}

/// Each view gets a body once: emitting the same body again to views that
/// were all ready before reaches none of them.
pub proof fn law_same_body_sent_once(
    last: Seq<char>,
    had: Set<u64>,
    ready: Seq<u64>,
    body: Seq<char>,
    have1: Set<u64>,
    targets1: Seq<u64>,
    ready2: Seq<u64>,
    have2: Set<u64>,
    targets2: Seq<u64>,
)
    requires
        emitted(last, had, ready, body, have1, targets1),
        emitted(body, have1, ready2, body, have2, targets2),
        forall|v: u64| #[trigger] ready2.contains(v) ==> ready.contains(v),
    ensures
        targets2.len() == 0,
{
    if targets2.len() > 0 {
        let v = targets2[0];
        assert(ready2.contains(v));
        assert(ready.contains(v));
        assert(ready.to_set().contains(v));
        assert(have1.contains(v));
    }
}

/// A registry that holds the default record keeps it through any delete.
pub proof fn law_default_survives_delete(rs: Seq<RecordView>, id: Seq<char>)
    requires
        has_id(rs, default_id()),
    ensures
        id == default_id() ==> has_id(rs, default_id()),
        id != default_id() ==> match position_of(rs, id) {
            Some(i) => has_id(rs.remove(i), default_id()),
            None => has_id(rs, default_id()),
        },
{
    if id != default_id() {
        lemma_position_of(rs, id);
        match position_of(rs, id) {
            Some(i) => {
                let j = choose|j: int| 0 <= j < rs.len() && #[trigger] rs[j].id == default_id();
                assert(j != i);
                if j < i {
                    assert(rs.remove(i)[j] == rs[j]);
                } else {
                    assert(rs.remove(i)[j - 1] == rs[j]);
                }
            },
            None => {},
        }
    }
}

/// The views to send `body` to: a body that differs from the last one is
/// sent to every ready view; the same body only to ready views that do not
/// have it yet. Each view is sent to at most once, and every ready view has
/// the body afterwards.
pub fn emit_targets(ready: &Vec<u64>, body: &str, cache: &mut EmitCache) -> (targets: Vec<u64>)
    ensures
        final(cache).body@ == body@,
        emitted(old(cache).body@, old(cache).sent@, ready@, body@, final(cache).sent@, targets@),
{
    if !str_eq(cache.body.as_str(), body) {
        cache.body = body.to_owned();
        cache.sent.clear();
    }
    let ghost base = cache.sent@;
    let mut targets: Vec<u64> = Vec::new();
    let mut i: usize = 0;
    while i < ready.len()
        invariant
            i <= ready@.len(),
            cache.body@ == body@,
            cache.sent@ == base.union(ready@.subrange(0, i as int).to_set()),
            forall|k: int| 0 <= k < targets@.len() ==> !base.contains(#[trigger] targets@[k]),
            forall|k: int| 0 <= k < targets@.len() ==> ready@.subrange(0, i as int).contains(#[trigger] targets@[k]),
            forall|v: u64| #[trigger] ready@.subrange(0, i as int).contains(v) && !base.contains(v) ==> targets@.contains(v),
            targets@.no_duplicates(),
        decreases ready@.len() - i,
    {
        let v = ready[i];
        let ghost pre = ready@.subrange(0, i as int);
        let ghost post = ready@.subrange(0, i as int + 1);
        assert(post =~= pre.push(v));
        assert(post.to_set() =~= pre.to_set().insert(v)) by {
            assert forall|x: u64| post.to_set().contains(x) <==> pre.to_set().insert(v).contains(x) by {
                if post.contains(x) {
                    let k = choose|k: int| 0 <= k < post.len() && post[k] == x;
                    if k < pre.len() {
                        assert(pre[k] == x);
                    }
                }
                if pre.contains(x) {
                    let k = choose|k: int| 0 <= k < pre.len() && pre[k] == x;
                    assert(post[k] == x);
                }
                if x == v {
                    assert(post[i as int] == x);
                }
            }
        }
        let ghost old_t = targets@;
        let ghost old_sent = cache.sent@;
        assert(forall|x: u64| #[trigger] pre.contains(x) && !base.contains(x) ==> old_t.contains(x));
        let fresh = cache.sent.insert(v);
        if fresh {
            targets.push(v);
            assert(!pre.contains(v)) by {
                if pre.contains(v) {
                    assert(pre.to_set().contains(v));
                }
            }
            assert forall|a: int, b: int| 0 <= a < targets@.len() && 0 <= b < targets@.len() && a != b
                implies targets@[a] != targets@[b] by {
                if a < old_t.len() && b < old_t.len() {
                    assert(targets@[a] == old_t[a] && targets@[b] == old_t[b]);
                } else if a < old_t.len() {
                    assert(targets@[a] == old_t[a]);
                    assert(pre.contains(old_t[a]));
                } else {
                    assert(targets@[b] == old_t[b]);
                    assert(pre.contains(old_t[b]));
                }
            }
        }
        assert(forall|k: int| 0 <= k < old_t.len() ==> targets@[k] == old_t[k]);
        assert forall|k: int| 0 <= k < targets@.len() implies post.contains(#[trigger] targets@[k]) by {
            if k < old_t.len() {
                let t = old_t[k];
                assert(pre.contains(t));
                let m = choose|m: int| 0 <= m < pre.len() && pre[m] == t;
                assert(post[m] == t);
            } else {
                assert(post[i as int] == v);
            }
        }
        assert forall|k: int| 0 <= k < targets@.len() implies !base.contains(#[trigger] targets@[k]) by {
            if k < old_t.len() {
                assert(targets@[k] == old_t[k]);
            } else {
                assert(!old_sent.contains(v));
            }
        }
        assert forall|x: u64| #[trigger] post.contains(x) && !base.contains(x) implies targets@.contains(x) by {
            let m = choose|m: int| 0 <= m < post.len() && post[m] == x;
            if m < pre.len() {
                assert(pre[m] == x);
                assert(pre.contains(x));
                assert(old_t.contains(x));
                let k = choose|k: int| 0 <= k < old_t.len() && old_t[k] == x;
                assert(targets@[k] == x);
            } else {
                assert(x == v);
                if fresh {
                    assert(targets@[targets@.len() - 1] == x);
                } else {
                    assert(old_sent.contains(x));
                    assert(pre.to_set().contains(x));
                    assert(pre.contains(x));
                    assert(old_t.contains(x));
                    let k = choose|k: int| 0 <= k < old_t.len() && old_t[k] == x;
                    assert(targets@[k] == x);
                }
            }
        }
        i = i + 1;
    }
    assert(ready@.subrange(0, ready@.len() as int) =~= ready@);
    targets
}

/// A command sent by a list view: `delete`, `attach` or `new`, with the
/// record it names and, for `new`, the name asked for.
#[derive(Clone, Debug)]
pub struct RegistryCommand {
    pub command: String,
    pub id: Option<String>,
    pub name: Option<String>,
}

/// The name of a new record: the name asked for, else the label and the
/// number the record will have (`Session 3`).
pub open spec fn spec_new_name(requested: Option<Seq<char>>, label: Seq<char>, count: nat) -> Seq<
    char,
> {
    match requested {
        Some(n) => n,
        None => label + " "@ + decimal_chars(count + 1),
    }
}

/// The name of a new record (see `spec_new_name`).
pub fn new_record_name(requested: &Option<String>, label: &str, records: &Vec<RegistryRecord>) -> (name:
    String)
    requires
        records@.len() < u64::MAX,
    ensures
        name@ == spec_new_name(
            match requested {
                Some(n) => Some(n@),
                None => None,
            },
            label@,
            records@.len(),
        ),
{
    match requested {
        Some(n) => n.clone(),
        None => {
            let mut s = label.to_owned().concat(" ");
            push_decimal_str(&mut s, records.len() as u64 + 1);
            s
        },
    }
}

/// What a list-view command comes to.
#[derive(Debug)]
pub enum RegistryPlan {
    /// Nothing to do.
    Ignore,
    /// `deleted` left the registry and its layout is to be removed; when it
    /// was the active record, the view switches to `switch_to` a frame later.
    Deleted { deleted: RegistryRecord, switch_to: Option<RegistryRecord> },
    /// The active record becomes `target`, saving the current layout first;
    /// `created` tells that it is new, and its list page opens.
    Switch { target: RegistryRecord, created: bool },
}

/// Carries out the registry side of a command from a list view and says
/// what the shell does next. `new_id` is the id a new record gets, and
/// `fallback` the record to go to when none is left. The second result
/// tells whether the registry changed and is to be written.
pub fn plan_registry_command(
    records: &mut Vec<RegistryRecord>,
    active: &RegistryRecord,
    cmd: &RegistryCommand,
    new_name: String,
    new_id: String,
    fallback: &RegistryRecord,
) -> (r: (RegistryPlan, bool))
    ensures
        ({
            let old_v = records_view(old(records)@);
            let new_v = records_view(final(records)@);
            if cmd.command@ == "delete"@ {
                match cmd.id {
                    None => r.0 is Ignore && !r.1 && final(records)@ == old(records)@,
                    Some(id) => if id@ == default_id() || position_of(old_v, id@) is None {
                        r.0 is Ignore && !r.1 && final(records)@ == old(records)@
                    } else {
                        let i = position_of(old_v, id@)->Some_0;
                        &&& r.1
                        &&& final(records)@ == old(records)@.remove(i)
                        &&& r.0 matches RegistryPlan::Deleted { deleted, switch_to }
                        &&& deleted.view() == old_v[i]
                        &&& (old_v[i].id == active.id@) == (switch_to is Some)
                        &&& switch_to matches Some(t) ==> t.view() == (if new_v.len() > 0 {
                            new_v[0]
                        } else {
                            fallback.view()
                        })
                    },
                }
            } else if cmd.command@ == "attach"@ {
                &&& !r.1
                &&& final(records)@ == old(records)@
                &&& match cmd.id {
                    None => r.0 is Ignore,
                    Some(id) => match position_of(old_v, id@) {
                        None => r.0 is Ignore,
                        Some(i) => if old_v[i].id == active.id@ {
                            r.0 is Ignore
                        } else {
                            r.0 matches RegistryPlan::Switch { target, created } && target.view()
                                == old_v[i] && !created
                        },
                    },
                }
            } else if cmd.command@ == "new"@ {
                let rec = RecordView { id: new_id@, name: new_name@, profile: active.profile@ };
                &&& r.1
                &&& new_v == old_v.push(rec)
                &&& if new_id@ == active.id@ {
                    r.0 is Ignore
                } else {
                    r.0 matches RegistryPlan::Switch { target, created } && target.view() == rec
                        && created
                }
            } else {
                r.0 is Ignore && !r.1 && final(records)@ == old(records)@
            }
        }),
{
    let c = cmd.command.as_str();
    if str_eq(c, "delete") {
        let id = match &cmd.id {
            None => {
                return (RegistryPlan::Ignore, false);
            },
            Some(id) => id,
        };
        proof {
            lemma_position_of(records_view(records@), id@);
        }
        let deleted = match delete_record(records, id.as_str()) {
            None => {
                return (RegistryPlan::Ignore, false);
            },
            Some(d) => d,
        };
        let deleted_active = str_eq(deleted.id.as_str(), active.id.as_str());
        let target = if records.len() > 0 {
            records[0].duplicate()
        } else {
            fallback.duplicate()
        };
        proof {
            assert(records_view(records@).len() == records@.len());
            if records@.len() > 0 {
                assert(records_view(records@)[0] == records@[0].view());
            }
        }
        if deleted_active {
            return (RegistryPlan::Deleted { deleted, switch_to: Some(target) }, true);
        }
        return (RegistryPlan::Deleted { deleted, switch_to: None }, true);
    }
    if str_eq(c, "attach") {
        assert(cmd.command@ != "delete"@);
        let id = match &cmd.id {
            None => {
                return (RegistryPlan::Ignore, false);
            },
            Some(id) => id,
        };
        let target = match position_exec(records, id.as_str()) {
            None => {
                return (RegistryPlan::Ignore, false);
            },
            Some(i) => records[i].duplicate(),
        };
        if str_eq(target.id.as_str(), active.id.as_str()) {
            return (RegistryPlan::Ignore, false);
        }
        return (RegistryPlan::Switch { target, created: false }, false);
    }
    if str_eq(c, "new") {
        assert(cmd.command@ != "delete"@ && cmd.command@ != "attach"@);
        let record = RegistryRecord { id: new_id, name: new_name, profile: active.profile.clone() };
        let target = record.duplicate();
        let ghost before = records_view(records@);
        records.push(record);
        assert(records_view(records@) =~= before.push(target.view()));
        if str_eq(target.id.as_str(), active.id.as_str()) {
            return (RegistryPlan::Ignore, true);
        }
        return (RegistryPlan::Switch { target, created: true }, true);
    }
    (RegistryPlan::Ignore, false)
}

/// A switch to `record` waiting `delay_frames` more frames, valid only while
/// the record with the id `from_id` is still the active one.
#[derive(Clone, Debug)]
pub struct PendingSwitch {
    pub from_id: String,
    pub record: RegistryRecord,
    pub delay_frames: u8,
}

/// One frame of a pending switch: while frames remain it waits one less;
/// then it ends, and yields its record when the active record is still the
/// one it was made for.
pub fn tick_pending_switch(pending: &mut Option<PendingSwitch>, active_id: &str) -> (r: Option<
    RegistryRecord,
>)
    ensures
        match *old(pending) {
            None => r is None && *final(pending) is None,
            Some(p) => if p.delay_frames > 0 {
                &&& r is None
                &&& *final(pending) matches Some(q)
                &&& q.delay_frames == p.delay_frames - 1
                &&& q.from_id == p.from_id
                &&& q.record == p.record
            } else {
                &&& *final(pending) is None
                &&& (r is Some) == (p.from_id@ == active_id@)
                &&& r matches Some(rec) ==> rec.view() == p.record.view()
            },
        },
{
    let mut p = match pending.take() {
        None => {
            return None;
        },
        Some(p) => p,
    };
    if p.delay_frames > 0 {
        p.delay_frames = p.delay_frames - 1;
        *pending = Some(p);
        return None;
    }
    if str_eq(p.from_id.as_str(), active_id) {
        Some(p.record)
    } else {
        None
    }
}

} // verus!
