//! Setting one value inside the settings document by a dotted path.
use crate::decimal::{
    decimal_chars, parse_unsigned_range, push_decimal_str, spec_parse_unsigned,
};
use crate::text::{
    chars_of, find_char_from, first_index_from, lemma_first_index_from_bounds, string_of,
    string_of_range,
};
use vstd::prelude::*;
use vstd::string::*;

verus! {

/// A settings document node.
#[derive(Debug)]
pub enum JsonValue {
    Null,
    Bool(bool),
    Number(String),
    Str(String),
    Array(Vec<JsonValue>),
    Object(Vec<(String, JsonValue)>),
}

/// A settings document node as a mathematical value.
#[verifier::ext_equal]
pub enum JsonView {
    Null,
    Bool(bool),
    Number(Seq<char>),
    Str(Seq<char>),
    Array(Seq<JsonView>),
    Object(Seq<(Seq<char>, JsonView)>),
}

impl JsonValue {
    pub open spec fn view(self) -> JsonView
        decreases self,
    {
        match self {
            JsonValue::Null => JsonView::Null,
            JsonValue::Bool(b) => JsonView::Bool(b),
            JsonValue::Number(n) => JsonView::Number(n@),
            JsonValue::Str(s) => JsonView::Str(s@),
            JsonValue::Array(items) => JsonView::Array(
                Seq::new(
                    items@.len(),
                    |i: int|
                        if 0 <= i < items@.len() {
                            items@[i].view()
                        } else {
                            JsonView::Null
                        },
                ),
            ),
            JsonValue::Object(es) => JsonView::Object(
                Seq::new(
                    es@.len(),
                    |i: int|
                        if 0 <= i < es@.len() {
                            (es@[i].0@, es@[i].1.view())
                        } else {
                            (Seq::empty(), JsonView::Null)
                        },
                ),
            ),
        }
    }
}

/// The parsed form of a JSON document: serde_json's document type, declared
/// so that a wrapper can hold it; it is opaque here.
#[verifier::external_type_specification]
#[verifier::external_body]
pub struct ExJsonDocument(serde_json::Value);

/// What `serde_json::from_slice` makes of the bytes: the document, or the
/// text of its error.
pub uninterp spec fn json_parse_of(bytes: Seq<u8>) -> Result<JsonView, Seq<char>>;

/// A serde_json document node as the library's node, one for one (a number
/// keeps the text serde_json prints for it).
#[verifier::external_body]
fn from_serde(v: &serde_json::Value) -> JsonValue {
    match v {
        serde_json::Value::Null => JsonValue::Null,
        serde_json::Value::Bool(b) => JsonValue::Bool(*b),
        serde_json::Value::Number(n) => JsonValue::Number(n.to_string()),
        serde_json::Value::String(t) => JsonValue::Str(t.clone()),
        serde_json::Value::Array(items) => JsonValue::Array(items.iter().map(from_serde).collect()),
        serde_json::Value::Object(m) => JsonValue::Object(
            m.iter().map(|(k, x)| (k.clone(), from_serde(x))).collect(),
        ),
    }
}

/// `serde_json::from_slice` into a document: its result is the named
/// `json_parse_of` of the bytes, the document as the library's node or the
/// error's text. Nothing more is stated of what it parses.
#[verifier::external_body]
pub(crate) fn parse_json(bytes: &[u8]) -> (r: Result<JsonValue, String>)
    ensures
        match json_parse_of(bytes@) {
            Ok(v) => r matches Ok(d) && d.view() == v,
            Err(e) => r matches Err(m) && m@ == e,
        },
{
    match serde_json::from_slice::<serde_json::Value>(bytes) {
        Ok(v) => Ok(from_serde(&v)),
        Err(e) => Err(e.to_string()),
    }
}

/// One step of a settings path, as a mathematical value.
pub enum PathSeg {
    Field(Seq<char>),
    Index(nat),
}

/// One step of a settings path: a field name or an array index.
#[derive(Debug)]
pub enum PathSegment {
    Field(String),
    Index(usize),
}

impl PathSegment {
    pub open spec fn view(self) -> PathSeg {
        match self {
            PathSegment::Field(name) => PathSeg::Field(name@),
            PathSegment::Index(i) => PathSeg::Index(i as nat),
        }
    }
}

/// The steps of a parsed path, as mathematical values.
pub open spec fn segs_view(segs: Seq<PathSegment>) -> Seq<PathSeg> {
    segs.map_values(|s: PathSegment| s.view())
}

/// `s` cut at every '.', as `str::split('.')` cuts it: an empty string is one
/// empty piece, and two dots in a row leave an empty piece between them.
pub open spec fn split_dots(s: Seq<char>) -> Seq<Seq<char>>
    decreases s.len(),
{
    if s.len() == 0 {
        seq![Seq::empty()]
    } else {
        let r = split_dots(s.drop_last());
        if s.last() == '.' {
            r.push(Seq::empty())
        } else {
            r.update(r.len() - 1, r.last().push(s.last()))
        }
    }
}

proof fn lemma_split_dots_nonempty(s: Seq<char>)
    ensures
        split_dots(s).len() >= 1,
    decreases s.len(),
{
    if s.len() > 0 {
        lemma_split_dots_nonempty(s.drop_last());
    }
}

/// What `usize`'s `from_str` reads from `s` (see `spec_parse_unsigned`).
pub open spec fn spec_parse_usize(s: Seq<char>) -> Option<nat> {
    spec_parse_unsigned(s, usize::MAX as nat)
}

/// The number written in `cs[from..to]` (see `spec_parse_usize`).
fn parse_usize_range(cs: &Vec<char>, from: usize, to: usize) -> (r: Option<usize>)
    requires
        from <= to <= cs@.len(),
    ensures
        match r {
            Some(n) => spec_parse_usize(cs@.subrange(from as int, to as int)) == Some(n as nat),
            None => spec_parse_usize(cs@.subrange(from as int, to as int)) is None,
        },
{
    match parse_unsigned_range(cs, from, to, usize::MAX as u64) {
        Some(v) => Some(v as usize),
        None => None,
    }
}

/// The indices written after the field name of `raw`, from index `t` on:
/// each runs up to the next ']' and is read as a `usize`, and what follows a
/// ']' is either nothing or the next '['.
pub open spec fn parse_tail_at(raw: Seq<char>, t: int) -> Result<Seq<PathSeg>, Seq<char>>
    decreases raw.len() - t,
{
    if t < 0 || t >= raw.len() {
        Ok(Seq::empty())
    } else {
        let c = first_index_from(raw, ']', t);
        if c >= raw.len() {
            Err("unclosed '[' in "@ + raw)
        } else {
            proof {
                lemma_first_index_from_bounds(raw, ']', t);
            }
            let idx = raw.subrange(t, c);
            match spec_parse_usize(idx) {
                None => Err("non-integer index '["@ + idx + "]' in "@ + raw),
                Some(n) => {
                    let r = c + 1;
                    if r < raw.len() && raw[r] != '[' {
                        Err("unexpected text after ']' in "@ + raw + ": "@ + raw.subrange(
                            r,
                            raw.len() as int,
                        ))
                    } else {
                        match parse_tail_at(raw, r) {
                            Ok(rest) => Ok(seq![PathSeg::Index(n)] + rest),
                            Err(e) => Err(e),
                        }
                    }
                },
            }
        }
    }
}

/// The steps one dot-separated piece of a path stands for: the field name
/// up to the first '[', which may not be empty, then the indices after it.
pub open spec fn parse_raw(raw: Seq<char>) -> Result<Seq<PathSeg>, Seq<char>> {
    let b = first_index_from(raw, '[', 0);
    if b == 0 {
        Err("missing field name before '[' in "@ + raw)
    } else {
        match parse_tail_at(raw, b + 1) {
            Ok(ix) => Ok(seq![PathSeg::Field(raw.subrange(0, b))] + ix),
            Err(e) => Err(e),
        }
    }
}

/// The steps of the pieces `raws` of `path`, or the error of the first piece
/// that is empty or does not parse.
pub open spec fn parse_raws(raws: Seq<Seq<char>>, path: Seq<char>) -> Result<
    Seq<PathSeg>,
    Seq<char>,
>
    decreases raws.len(),
{
    if raws.len() == 0 {
        Ok(Seq::empty())
    } else if raws[0].len() == 0 {
        Err("empty segment in path: "@ + path)
    } else {
        match parse_raw(raws[0]) {
            Err(e) => Err(e),
            Ok(first) => match parse_raws(raws.subrange(1, raws.len() as int), path) {
                Ok(rest) => Ok(first + rest),
                Err(e) => Err(e),
            },
        }
    }
}

/// The steps of a settings path such as `terminal.themes[0].font_size`.
pub open spec fn spec_parse_path(path: Seq<char>) -> Result<Seq<PathSeg>, Seq<char>> {
    parse_raws(split_dots(path), path)
}

/// `acc` followed by `r`, or the error of `r`.
pub open spec fn then_append(acc: Seq<PathSeg>, r: Result<Seq<PathSeg>, Seq<char>>) -> Result<
    Seq<PathSeg>,
    Seq<char>,
> {
    match r {
        Ok(rest) => Ok(acc + rest),
        Err(e) => Err(e),
    }
}

fn str_plus_chars(prefix: &str, cs: &Vec<char>, from: usize, to: usize) -> (s: String)
    requires
        from <= to <= cs@.len(),
    ensures
        s@ == prefix@ + cs@.subrange(from as int, to as int),
{
    let tail = string_of_range(cs, from, to);
    prefix.to_owned().concat(tail.as_str())
}

/// The steps written in `raw[t..]` after a field name (see `parse_tail_at`),
/// appended to `out`.
fn parse_tail(raw: &Vec<char>, t0: usize, out: &mut Vec<PathSegment>) -> (r: Result<(), String>)
    requires
        t0 <= raw@.len(),
    ensures
        match r {
            Ok(()) => then_append(segs_view(old(out)@), parse_tail_at(raw@, t0 as int)) == Ok::<
                Seq<PathSeg>,
                Seq<char>,
            >(segs_view(final(out)@)),
            Err(e) => parse_tail_at(raw@, t0 as int) == Err::<Seq<PathSeg>, Seq<char>>(e@),
        },
{
    let n = raw.len();
    let mut t = t0;
    while t < n
        invariant
            n == raw@.len(),
            t0 <= t <= n,
            then_append(segs_view(old(out)@), parse_tail_at(raw@, t0 as int)) == then_append(
                segs_view(out@),
                parse_tail_at(raw@, t as int),
            ),
            (t < n && t > t0) ==> raw@[t as int] == '[',
        decreases n - t,
    {
        let c = find_char_from(raw, ']', t);
        proof {
            lemma_first_index_from_bounds(raw@, ']', t as int);
        }
        if c == n {
            let msg = str_plus_chars("unclosed '[' in ", raw, 0, n);
            assert(raw@.subrange(0, n as int) =~= raw@);
            return Err(msg);
        }
        match parse_usize_range(raw, t, c) {
            None => {
                let a = str_plus_chars("non-integer index '[", raw, t, c);
                let b = a.concat("]' in ");
                let msg = str_plus_chars(b.as_str(), raw, 0, n);
                assert(raw@.subrange(0, n as int) =~= raw@);
                return Err(msg);
            },
            Some(v) => {
                let ghost before = segs_view(out@);
                out.push(PathSegment::Index(v));
                proof {
                    assert(segs_view(out@) =~= before + seq![PathSeg::Index(v as nat)]);
                }
                let r = c + 1;
                if r < n && raw[r] != '[' {
                    let a = str_plus_chars("unexpected text after ']' in ", raw, 0, n);
                    let b = a.concat(": ");
                    let msg = str_plus_chars(b.as_str(), raw, r, n);
                    assert(raw@.subrange(0, n as int) =~= raw@);
                    return Err(msg);
                }
                proof {
                    let rest = parse_tail_at(raw@, r as int);
                    match rest {
                        Ok(x) => {
                            assert(before + (seq![PathSeg::Index(v as nat)] + x) =~= segs_view(out@) + x);
                        },
                        Err(_) => {},
                    }
                }
                t = r;
            },
        }
    }
    proof {
        assert(segs_view(out@) + Seq::<PathSeg>::empty() =~= segs_view(out@));
    }
    Ok(())
}

/// The steps of one piece of a path (see `parse_raw`), appended to `out`.
fn parse_raw_into(raw: &Vec<char>, out: &mut Vec<PathSegment>) -> (r: Result<(), String>)
    ensures
        match r {
            Ok(()) => then_append(segs_view(old(out)@), parse_raw(raw@)) == Ok::<
                Seq<PathSeg>,
                Seq<char>,
            >(segs_view(final(out)@)),
            Err(e) => parse_raw(raw@) == Err::<Seq<PathSeg>, Seq<char>>(e@),
        },
{
    let n = raw.len();
    let b = find_char_from(raw, '[', 0);
    if b == 0 {
        let msg = str_plus_chars("missing field name before '[' in ", raw, 0, n);
        assert(raw@.subrange(0, n as int) =~= raw@);
        return Err(msg);
    }
    let name = string_of_range(raw, 0, b);
    let ghost before = segs_view(out@);
    out.push(PathSegment::Field(name));
    assert(segs_view(out@) =~= before + seq![PathSeg::Field(raw@.subrange(0, b as int))]);
    let t = if b < n {
        b + 1
    } else {
        n
    };
    assert(parse_tail_at(raw@, t as int) == parse_tail_at(raw@, b + 1));
    let r = parse_tail(raw, t, out);
    proof {
        match parse_tail_at(raw@, b + 1) {
            Ok(x) => {
                assert(before + (seq![PathSeg::Field(raw@.subrange(0, b as int))] + x) =~= (before
                    + seq![PathSeg::Field(raw@.subrange(0, b as int))]) + x);
            },
            Err(_) => {},
        }
    }
    r
}

/// The pieces of `cs` between dots (see `split_dots`).
fn split_dots_exec(cs: &Vec<char>) -> (raws: Vec<Vec<char>>)
    ensures
        raws@.map_values(|v: Vec<char>| v@) == split_dots(cs@),
{
    let mut raws: Vec<Vec<char>> = Vec::new();
    let mut cur: Vec<char> = Vec::new();
    let mut i: usize = 0;
    while i < cs.len()
        invariant
            i <= cs@.len(),
            raws@.map_values(|v: Vec<char>| v@).push(cur@) == split_dots(cs@.subrange(0, i as int)),
        decreases cs@.len() - i,
    {
        let c = cs[i];
        let ghost pre = cs@.subrange(0, i as int);
        assert(cs@.subrange(0, i as int + 1).drop_last() =~= pre);
        assert(cs@.subrange(0, i as int + 1).last() == c);
        if c == '.' {
            let ghost old_raws = raws@;
            let done = cur;
            raws.push(done);
            cur = Vec::new();
            assert(raws@.map_values(|v: Vec<char>| v@) =~= old_raws.map_values(|v: Vec<char>| v@).push(
                done@,
            ));
            assert(raws@.map_values(|v: Vec<char>| v@).push(cur@) =~= split_dots(
                cs@.subrange(0, i as int + 1),
            ));
        } else {
            let ghost old_cur = cur@;
            cur.push(c);
            let ghost m = raws@.map_values(|v: Vec<char>| v@);
            assert(m.push(cur@) =~= m.push(old_cur).update(m.len() as int, old_cur.push(c)));
        }
        i = i + 1;
    }
    let ghost old_raws = raws@;
    let last = cur;
    raws.push(last);
    assert(raws@.map_values(|v: Vec<char>| v@) =~= old_raws.map_values(|v: Vec<char>| v@).push(
        last@,
    ));
    assert(cs@.subrange(0, cs@.len() as int) =~= cs@);
    raws
}

/// The steps of a settings path such as `terminal.themes[0].font_size`, or
/// the error that names what is wrong with it (see `spec_parse_path`).
pub fn parse_path_segments(path: &str) -> (r: Result<Vec<PathSegment>, String>)
    ensures
        match r {
            Ok(segs) => spec_parse_path(path@) == Ok::<Seq<PathSeg>, Seq<char>>(segs_view(segs@)),
            Err(e) => spec_parse_path(path@) == Err::<Seq<PathSeg>, Seq<char>>(e@),
        },
{
    let cs = chars_of(path);
    let raws = split_dots_exec(&cs);
    let ghost rv = raws@.map_values(|v: Vec<char>| v@);
    let mut out: Vec<PathSegment> = Vec::new();
    let mut i: usize = 0;
    assert(rv.subrange(0, rv.len() as int) =~= rv);
    assert(segs_view(out@) =~= Seq::<PathSeg>::empty());
    while i < raws.len()
        invariant
            rv == raws@.map_values(|v: Vec<char>| v@),
            cs@ == path@,
            rv == split_dots(path@),
            i <= raws@.len(),
            then_append(Seq::empty(), parse_raws(rv, path@)) == then_append(
                segs_view(out@),
                parse_raws(rv.subrange(i as int, rv.len() as int), path@),
            ),
        decreases raws@.len() - i,
    {
        let raw = &raws[i];
        let ghost sub = rv.subrange(i as int, rv.len() as int);
        assert(sub[0] == raw@);
        assert(sub.subrange(1, sub.len() as int) =~= rv.subrange(i as int + 1, rv.len() as int));
        if raw.len() == 0 {
            let msg = "empty segment in path: ".to_owned().concat(path);
            proof {
                assert(then_append(Seq::empty(), parse_raws(rv, path@)) == Err::<Seq<PathSeg>, Seq<char>>(msg@));
                match parse_raws(rv, path@) {
                    Ok(x) => {},
                    Err(e) => {},
                }
            }
            return Err(msg);
        }
        let ghost before = segs_view(out@);
        let r = parse_raw_into(raw, &mut out);
        match r {
            Err(e) => {
                return Err(e);
            },
            Ok(()) => {
                proof {
                    let first = parse_raw(raw@)->Ok_0;
                    match parse_raws(rv.subrange(i as int + 1, rv.len() as int), path@) {
                        Ok(x) => {
                            assert(before + (first + x) =~= (before + first) + x);
                        },
                        Err(_) => {},
                    }
                }
            },
        }
        i = i + 1;
    }
    proof {
        match parse_raws(rv, path@) {
            Ok(x) => {
                assert(Seq::<PathSeg>::empty() + x =~= x);
                assert(segs_view(out@) + Seq::<PathSeg>::empty() =~= segs_view(out@));
            },
            Err(_) => {},
        }
    }
    Ok(out)
}

/// The path walked so far after one more step: a field after a dot (none at
/// the start), an index in brackets.
pub open spec fn append_seg(walked: Seq<char>, seg: PathSeg) -> Seq<char> {
    match seg {
        PathSeg::Field(name) => if walked.len() == 0 {
            name
        } else {
            walked.push('.') + name
        },
        PathSeg::Index(i) => walked + "["@ + decimal_chars(i) + "]"@,
    }
}

/// Appends one step to the path walked so far (see `append_seg`).
pub fn append_segment(walked: &mut String, segment: &PathSegment)
    ensures
        final(walked)@ == append_seg(old(walked)@, segment.view()),
{
    match segment {
        PathSegment::Field(name) => {
            if !walked.as_str().is_empty() {
                walked.push('.');
            }
            walked.append(name.as_str());
        },
        PathSegment::Index(i) => {
            walked.push('[');
            push_decimal_str(walked, *i as u64);
            walked.push(']');
            assert(final(walked)@ =~= old(walked)@ + "["@ + decimal_chars(*i as nat) + "]"@) by {
                reveal_strlit("[");
                reveal_strlit("]");
            }
        },
    }
}

/// The index of the first member of `es` named `name`.
pub open spec fn find_member(es: Seq<(Seq<char>, JsonView)>, name: Seq<char>) -> Option<int>
    decreases es.len(),
{
    if es.len() == 0 {
        None
    } else {
        match find_member(es.drop_last(), name) {
            Some(i) => Some(i),
            None => if es.last().0 == name {
                Some(es.len() - 1)
            } else {
                None
            },
        }
    }
}

pub proof fn lemma_find_member(es: Seq<(Seq<char>, JsonView)>, name: Seq<char>)
    ensures
        match find_member(es, name) {
            Some(i) => 0 <= i < es.len() && es[i].0 == name && forall|j: int|
                0 <= j < i ==> #[trigger] es[j].0 != name,
            None => forall|j: int| 0 <= j < es.len() ==> #[trigger] es[j].0 != name,
        },
    decreases es.len(),
{
    if es.len() > 0 {
        lemma_find_member(es.drop_last(), name);
        match find_member(es.drop_last(), name) {
            Some(i) => {
                assert(forall|j: int| 0 <= j < i ==> es[j] == es.drop_last()[j]);
            },
            None => {
                assert(forall|j: int| 0 <= j < es.len() - 1 ==> es[j] == es.drop_last()[j]);
            },
        }
    }
}

/// The message of a step that names nothing in the document.
pub open spec fn msg_unknown(walked: Seq<char>) -> Seq<char> {
    "unknown setting path: "@ + walked
}

/// Sets `value` at the steps `segs[k..]` of `v`, having walked `walked`:
/// every step before the last must name a member or element that exists;
/// the last replaces an existing member of an object or element of an array.
pub open spec fn spec_set_path(
    v: JsonView,
    segs: Seq<PathSeg>,
    k: int,
    walked: Seq<char>,
    value: JsonView,
) -> Result<JsonView, Seq<char>>
    decreases segs.len() - k,
{
    if k < 0 || k >= segs.len() {
        Ok(v)
    } else {
        let w = append_seg(walked, segs[k]);
        let last = k == segs.len() - 1;
        match segs[k] {
            PathSeg::Field(name) => match v {
                JsonView::Object(es) => match find_member(es, name) {
                    Some(i) => if last {
                        Ok(JsonView::Object(es.update(i, (es[i].0, value))))
                    } else {
                        match spec_set_path(es[i].1, segs, k + 1, w, value) {
                            Ok(c) => Ok(JsonView::Object(es.update(i, (es[i].0, c)))),
                            Err(e) => Err(e),
                        }
                    },
                    None => Err(msg_unknown(w)),
                },
                _ => if last {
                    Err("cannot index field on non-object at "@ + w)
                } else {
                    Err(msg_unknown(w))
                },
            },
            PathSeg::Index(i) => match v {
                JsonView::Array(items) => if i < items.len() {
                    if last {
                        Ok(JsonView::Array(items.update(i as int, value)))
                    } else {
                        match spec_set_path(items[i as int], segs, k + 1, w, value) {
                            Ok(c) => Ok(JsonView::Array(items.update(i as int, c))),
                            Err(e) => Err(e),
                        }
                    }
                } else {
                    Err(msg_unknown(w))
                },
                _ => if last {
                    Err("cannot index by ["@ + decimal_chars(i) + "] on non-array at "@ + w)
                } else {
                    Err(msg_unknown(w))
                },
            },
        }
    }
}

/// The members of an object as a mathematical value.
pub open spec fn members_view(es: Seq<(String, JsonValue)>) -> Seq<(Seq<char>, JsonView)> {
    Seq::new(
        es.len(),
        |i: int|
            if 0 <= i < es.len() {
                (es[i].0@, es[i].1.view())
            } else {
                (Seq::empty(), JsonView::Null)
            },
    )
}

/// The elements of an array as a mathematical value.
pub open spec fn items_view(items: Seq<JsonValue>) -> Seq<JsonView> {
    Seq::new(
        items.len(),
        |i: int|
            if 0 <= i < items.len() {
                items[i].view()
            } else {
                JsonView::Null
            },
    )
}

proof fn lemma_object_view(es: Vec<(String, JsonValue)>)
    ensures
        JsonValue::Object(es).view() == JsonView::Object(members_view(es@)),
{
    let v = JsonValue::Object(es).view();
    assert(v->Object_0 =~= members_view(es@));
}

proof fn lemma_array_view(items: Vec<JsonValue>)
    ensures
        JsonValue::Array(items).view() == JsonView::Array(items_view(items@)),
{
    let v = JsonValue::Array(items).view();
    assert(v->Array_0 =~= items_view(items@));
}

/// The view of an object is the view of its members.
pub proof fn lemma_object_view_pub(es: Vec<(String, JsonValue)>)
    ensures
        JsonValue::Object(es).view() == JsonView::Object(members_view(es@)),
{
    lemma_object_view(es);
}

fn find_member_exec(es: &Vec<(String, JsonValue)>, name: &String) -> (r: Option<usize>)
    ensures
        match r {
            Some(i) => find_member(members_view(es@), name@) == Some(i as int) && i < es@.len(),
            None => find_member(members_view(es@), name@) is None,
        },
{
    let ghost m = members_view(es@);
    proof {
        lemma_find_member(m, name@);
    }
    let mut i: usize = 0;
    while i < es.len()
        invariant
            i <= es@.len(),
            m == members_view(es@),
            forall|j: int| 0 <= j < i ==> #[trigger] m[j].0 != name@,
            match find_member(m, name@) {
                Some(x) => 0 <= x < m.len() && m[x].0 == name@ && forall|j: int|
                    0 <= j < x ==> #[trigger] m[j].0 != name@,
                None => forall|j: int| 0 <= j < m.len() ==> #[trigger] m[j].0 != name@,
            },
        decreases es@.len() - i,
    {
        if es[i].0 == *name {
            assert(m[i as int].0 == name@);
            return Some(i);
        }
        assert(m[i as int].0 != name@);
        i = i + 1;
    }
    None
}

fn msg_with(prefix: &str, walked: &String) -> (m: String)
    ensures
        m@ == prefix@ + walked@,
{
    prefix.to_owned().concat(walked.as_str())
}

/// Sets `value` at the steps `segs[k..]` of `node` (see `spec_set_path`);
/// on an error `node` is left as it was.
fn set_path(
    node: &mut JsonValue,
    segs: &Vec<PathSegment>,
    k: usize,
    walked: &String,
    value: JsonValue,
) -> (r: Result<(), String>)
    requires
        k < segs@.len(),
    ensures
        match spec_set_path(old(node).view(), segs_view(segs@), k as int, walked@, value.view()) {
            Ok(v) => r is Ok && final(node).view() == v,
            Err(e) => r matches Err(m) && m@ == e && final(node).view() == old(node).view(),
        },
    decreases segs@.len() - k,
{
    let ghost sv = segs_view(segs@);
    let ghost vv = value.view();
    let mut w = walked.clone();
    append_segment(&mut w, &segs[k]);
    assert(w@ == append_seg(walked@, sv[k as int]));
    let last = k == segs.len() - 1;
    let mut taken = JsonValue::Null;
    std::mem::swap(&mut taken, node);
    let ghost ov = taken.view();
    match taken {
        JsonValue::Object(mut es) => {
            proof {
                lemma_object_view(es);
            }
            match &segs[k] {
                PathSegment::Field(name) => {
                    match find_member_exec(&es, name) {
                        Some(i) => {
                            let ghost m0 = members_view(es@);
                            if last {
                                let nm = es[i].0.clone();
                                es.set(i, (nm, value));
                                proof {
                                    lemma_object_view(es);
                                }
                                *node = JsonValue::Object(es);
                                assert(members_view(es@) =~= m0.update(i as int, (m0[i as int].0, vv)));
                                Ok(())
                            } else {
                                let (nm, mut child) = es.remove(i);
                                let ghost es_removed = es@;
                                let r = set_path(&mut child, segs, k + 1, &w, value);
                                es.insert(i, (nm, child));
                                assert(members_view(es@) =~= m0.update(i as int, (m0[i as int].0, child.view())));
                                proof {
                                    lemma_object_view(es);
                                }
                                *node = JsonValue::Object(es);
                                proof {
                                    if r is Err {
                                        assert(m0.update(i as int, (m0[i as int].0, m0[i as int].1)) =~= m0);
                                    }
                                }
                                r
                            }
                        },
                        None => {
                            *node = JsonValue::Object(es);
                            Err(msg_with("unknown setting path: ", &w))
                        },
                    }
                },
                PathSegment::Index(i) => {
                    *node = JsonValue::Object(es);
                    if last {
                        let mut m = "cannot index by [".to_owned();
                        push_decimal_str(&mut m, *i as u64);
                        let m2 = m.concat("] on non-array at ");
                        Err(m2.concat(w.as_str()))
                    } else {
                        Err(msg_with("unknown setting path: ", &w))
                    }
                },
            }
        },
        JsonValue::Array(mut items) => {
            proof {
                lemma_array_view(items);
            }
            match &segs[k] {
                PathSegment::Index(i) => {
                    let i = *i;
                    if i < items.len() {
                        let ghost m0 = items_view(items@);
                        if last {
                            items.set(i, value);
                            assert(items_view(items@) =~= m0.update(i as int, vv));
                            proof {
                                lemma_array_view(items);
                            }
                            *node = JsonValue::Array(items);
                            Ok(())
                        } else {
                            let mut child = items.remove(i);
                            let r = set_path(&mut child, segs, k + 1, &w, value);
                            items.insert(i, child);
                            assert(items_view(items@) =~= m0.update(i as int, child.view()));
                            proof {
                                lemma_array_view(items);
                            }
                            *node = JsonValue::Array(items);
                            proof {
                                if r is Err {
                                    assert(m0.update(i as int, m0[i as int]) =~= m0);
                                }
                            }
                            r
                        }
                    } else {
                        *node = JsonValue::Array(items);
                        Err(msg_with("unknown setting path: ", &w))
                    }
                },
                PathSegment::Field(_) => {
                    *node = JsonValue::Array(items);
                    if last {
                        Err(msg_with("cannot index field on non-object at ", &w))
                    } else {
                        Err(msg_with("unknown setting path: ", &w))
                    }
                },
            }
        },
        other => {
            *node = other;
            match &segs[k] {
                PathSegment::Field(_) => {
                    if last {
                        Err(msg_with("cannot index field on non-object at ", &w))
                    } else {
                        Err(msg_with("unknown setting path: ", &w))
                    }
                },
                PathSegment::Index(i) => {
                    if last {
                        let mut m = "cannot index by [".to_owned();
                        push_decimal_str(&mut m, *i as u64);
                        let m2 = m.concat("] on non-array at ");
                        Err(m2.concat(w.as_str()))
                    } else {
                        Err(msg_with("unknown setting path: ", &w))
                    }
                },
            }
        },
    }
}

/// Sets `value` at `path` in the document: the path must parse and, as
/// `spec_set_path` walks it from the root, name an existing member or element;
/// on an error the document is left as it was.
pub open spec fn spec_set_at_path(root: JsonView, path: Seq<char>, value: JsonView) -> Result<
    JsonView,
    Seq<char>,
> {
    if path.len() == 0 {
        Err("empty settings path"@)
    } else {
        match spec_parse_path(path) {
            Err(e) => Err(e),
            Ok(segs) => if segs.len() == 0 {
                Err("empty settings path"@)
            } else {
                spec_set_path(root, segs, 0, Seq::empty(), value)
            },
        }
    }
}

/// Sets `value` at `path` in the document (see `spec_set_at_path`).
pub fn set_at_path(root: &mut JsonValue, path: &str, value: JsonValue) -> (r: Result<(), String>)
    ensures
        match spec_set_at_path(old(root).view(), path@, value.view()) {
            Ok(v) => r is Ok && final(root).view() == v,
            Err(e) => r matches Err(m) && m@ == e && final(root).view() == old(root).view(),
        },
{
    if path.is_empty() {
        return Err("empty settings path".to_owned());
    }
    let segs = match parse_path_segments(path) {
        Ok(segs) => segs,
        Err(e) => {
            return Err(e);
        },
    };
    if segs.len() == 0 {
        return Err("empty settings path".to_owned());
    }
    let walked = String::new();
    set_path(root, &segs, 0, &walked, value)
}

proof fn lemma_find_member_at(es: Seq<(Seq<char>, JsonView)>, name: Seq<char>, i: int)
    requires
        0 <= i < es.len(),
        es[i].0 == name,
        forall|j: int| 0 <= j < i ==> #[trigger] es[j].0 != name,
    ensures
        find_member(es, name) == Some(i),
{
    lemma_find_member(es, name);
}

/// The value at the steps `segs[k..]` of `v`, if each names an existing
/// member or element.
pub open spec fn spec_get_path(v: JsonView, segs: Seq<PathSeg>, k: int) -> Option<JsonView>
    decreases segs.len() - k,
{
    if k < 0 || k >= segs.len() {
        Some(v)
    } else {
        match segs[k] {
            PathSeg::Field(name) => match v {
                JsonView::Object(es) => match find_member(es, name) {
                    Some(i) => spec_get_path(es[i].1, segs, k + 1),
                    None => None,
                },
                _ => None,
            },
            PathSeg::Index(i) => match v {
                JsonView::Array(items) => if i < items.len() {
                    spec_get_path(items[i as int], segs, k + 1)
                } else {
                    None
                },
                _ => None,
            },
        }
    }
}

/// After a successful set, the path leads to the value that was set, and it
/// led somewhere before.
pub proof fn lemma_set_then_get(
    v: JsonView,
    segs: Seq<PathSeg>,
    k: int,
    walked: Seq<char>,
    value: JsonView,
)
    requires
        0 <= k < segs.len(),
        spec_set_path(v, segs, k, walked, value) is Ok,
    ensures
        spec_get_path(spec_set_path(v, segs, k, walked, value)->Ok_0, segs, k) == Some(value),
        spec_get_path(v, segs, k) is Some,
    decreases segs.len() - k,
{
    let w = append_seg(walked, segs[k]);
    match segs[k] {
        PathSeg::Field(name) => match v {
            JsonView::Object(es) => {
                lemma_find_member(es, name);
                let i = find_member(es, name)->Some_0;
                if k + 1 == segs.len() {
                    let es2 = es.update(i, (es[i].0, value));
                    lemma_find_member_at(es2, name, i);
                    assert(spec_get_path(es2[i].1, segs, k + 1) == Some(value));
                } else {
                    lemma_set_then_get(es[i].1, segs, k + 1, w, value);
                    let c = spec_set_path(es[i].1, segs, k + 1, w, value)->Ok_0;
                    let es2 = es.update(i, (es[i].0, c));
                    lemma_find_member_at(es2, name, i);
                }
            },
            _ => {},
        },
        PathSeg::Index(i) => match v {
            JsonView::Array(items) => {
                if k + 1 < segs.len() {
                    lemma_set_then_get(items[i as int], segs, k + 1, w, value);
                } else {
                    assert(spec_get_path(items.update(i as int, value)[i as int], segs, k + 1) == Some(value));
                    assert(spec_get_path(items[i as int], segs, k + 1) is Some);
                }
            },
            _ => {},
        },
    }
}

/// The value at `path` in the document, if the path parses and leads somewhere.
pub open spec fn spec_get_at_path(root: JsonView, path: Seq<char>) -> Option<JsonView> {
    match spec_parse_path(path) {
        Ok(segs) => if segs.len() == 0 {
            None
        } else {
            spec_get_path(root, segs, 0)
        },
        Err(_) => None,
    }
}

/// Setting a value at a path succeeds only where the path already leads
/// somewhere, and afterwards the path leads to the value that was set.
pub proof fn law_set_at_path_then_get(root: JsonView, path: Seq<char>, value: JsonView)
    requires
        spec_set_at_path(root, path, value) is Ok,
    ensures
        spec_get_at_path(root, path) is Some,
        spec_get_at_path(spec_set_at_path(root, path, value)->Ok_0, path) == Some(value),
{
    let segs = spec_parse_path(path)->Ok_0;
    lemma_set_then_get(root, segs, 0, Seq::empty(), value);
}

/// A set that would find its way succeeds: where the steps from `k` lead
/// somewhere, setting there is no error.
proof fn lemma_get_then_set(v: JsonView, segs: Seq<PathSeg>, k: int, walked: Seq<char>, value: JsonView)
    requires
        0 <= k < segs.len(),
        spec_get_path(v, segs, k) is Some,
    ensures
        spec_set_path(v, segs, k, walked, value) is Ok,
    decreases segs.len() - k,
{
    let w = append_seg(walked, segs[k]);
    match segs[k] {
        PathSeg::Field(name) => match v {
            JsonView::Object(es) => {
                let i = find_member(es, name)->Some_0;
                lemma_find_member(es, name);
                if k + 1 < segs.len() {
                    lemma_get_then_set(es[i].1, segs, k + 1, w, value);
                }
            },
            _ => {},
        },
        PathSeg::Index(i) => match v {
            JsonView::Array(items) => {
                if k + 1 < segs.len() {
                    lemma_get_then_set(items[i as int], segs, k + 1, w, value);
                }
            },
            _ => {},
        },
    }
}

/// Setting a value is refused exactly where the path is empty, does not
/// parse, or does not lead to an existing member or element of the
/// document; a refused set leaves the document as it was (see `set_at_path`).
pub proof fn law_set_at_path_fails_only_off_the_document(root: JsonView, path: Seq<char>, value: JsonView)
    ensures
        spec_set_at_path(root, path, value) is Ok <==> (path.len() > 0 && spec_get_at_path(root, path) is Some),
{
    if spec_set_at_path(root, path, value) is Ok {
        law_set_at_path_then_get(root, path, value);
    }
    if path.len() > 0 && spec_get_at_path(root, path) is Some {
        let segs = spec_parse_path(path)->Ok_0;
        lemma_get_then_set(root, segs, 0, Seq::empty(), value);
    }
}

/// Replacing the value of a member keeps the member names, so every name is
/// found at the same place.
proof fn lemma_find_member_same_names(
    es: Seq<(Seq<char>, JsonView)>,
    es2: Seq<(Seq<char>, JsonView)>,
    name: Seq<char>,
)
    requires
        es.len() == es2.len(),
        forall|j: int| 0 <= j < es.len() ==> #[trigger] es[j].0 == es2[j].0,
    ensures
        find_member(es2, name) == find_member(es, name),
    decreases es.len(),
{
    if es.len() > 0 {
        lemma_find_member_same_names(es.drop_last(), es2.drop_last(), name);
        assert(es.last().0 == es2.last().0);
    }
}

/// Whether two step lists differ at some step from `k` on that both have.
pub open spec fn diverges_from(q: Seq<PathSeg>, segs: Seq<PathSeg>, k: int) -> bool {
    exists|d: int| k <= d && d < q.len() && d < segs.len() && #[trigger] q[d] != segs[d]
}

proof fn lemma_set_keeps_other_paths(
    v: JsonView,
    segs: Seq<PathSeg>,
    k: int,
    walked: Seq<char>,
    value: JsonView,
    q: Seq<PathSeg>,
)
    requires
        0 <= k < segs.len(),
        spec_set_path(v, segs, k, walked, value) is Ok,
        diverges_from(q, segs, k),
    ensures
        spec_get_path(spec_set_path(v, segs, k, walked, value)->Ok_0, q, k) == spec_get_path(v, q, k),
    decreases segs.len() - k,
{
    let d = choose|d: int| k <= d && d < q.len() && d < segs.len() && #[trigger] q[d] != segs[d];
    let w = append_seg(walked, segs[k]);
    let nv = spec_set_path(v, segs, k, walked, value)->Ok_0;
    match segs[k] {
        PathSeg::Field(name) => match v {
            JsonView::Object(es) => {
                lemma_find_member(es, name);
                let i = find_member(es, name)->Some_0;
                let c = if k + 1 == segs.len() {
                    value
                } else {
                    spec_set_path(es[i].1, segs, k + 1, w, value)->Ok_0
                };
                let es2 = es.update(i, (es[i].0, c));
                assert(nv == JsonView::Object(es2));
                if q[k] == segs[k] {
                    assert(d > k);
                    assert(k + 1 < segs.len());
                    lemma_set_keeps_other_paths(es[i].1, segs, k + 1, w, value, q);
                    lemma_find_member_at(es2, name, i);
                } else {
                    match q[k] {
                        PathSeg::Field(n2) => {
                            lemma_find_member_same_names(es, es2, n2);
                            lemma_find_member(es, n2);
                            match find_member(es, n2) {
                                Some(j) => {
                                    assert(j != i);
                                    assert(es2[j] == es[j]);
                                },
                                None => {},
                            }
                        },
                        PathSeg::Index(_) => {},
                    }
                }
            },
            _ => {},
        },
        PathSeg::Index(i) => match v {
            JsonView::Array(items) => {
                let c = if k + 1 == segs.len() {
                    value
                } else {
                    spec_set_path(items[i as int], segs, k + 1, w, value)->Ok_0
                };
                let items2 = items.update(i as int, c);
                assert(nv == JsonView::Array(items2));
                if q[k] == segs[k] {
                    assert(d > k);
                    lemma_set_keeps_other_paths(items[i as int], segs, k + 1, w, value, q);
                } else {
                    match q[k] {
                        PathSeg::Index(i2) => {
                            if i2 < items.len() {
                                assert(items2[i2 as int] == items[i2 as int]);
                            }
                        },
                        PathSeg::Field(_) => {},
                    }
                }
            },
            _ => {},
        },
    }
}

/// A set changes the document at its one place only: every path that
/// parts from it somewhere leads, after a successful set, exactly where it
/// led before (so no other member or element changes, and no member is
/// added or removed off the path).
pub proof fn law_set_at_path_changes_only_its_place(
    root: JsonView,
    path: Seq<char>,
    value: JsonView,
    other: Seq<PathSeg>,
)
    requires
        spec_set_at_path(root, path, value) is Ok,
        diverges_from(other, spec_parse_path(path)->Ok_0, 0),
    ensures
        spec_get_path(spec_set_at_path(root, path, value)->Ok_0, other, 0) == spec_get_path(
            root,
            other,
            0,
        ),
{
    let segs = spec_parse_path(path)->Ok_0;
    lemma_set_keeps_other_paths(root, segs, 0, Seq::empty(), value, other);
}

/// Whether two nodes are containers of the same kind with the same member
/// names in order, or the same number of elements.
pub open spec fn same_layout(a: JsonView, b: JsonView) -> bool {
    match (a, b) {
        (JsonView::Object(x), JsonView::Object(y)) => x.len() == y.len() && forall|j: int|
            0 <= j < x.len() ==> #[trigger] x[j].0 == y[j].0,
        (JsonView::Array(x), JsonView::Array(y)) => x.len() == y.len(),
        _ => false,
    }
}

proof fn lemma_set_keeps_layout_along(
    v: JsonView,
    segs: Seq<PathSeg>,
    k: int,
    walked: Seq<char>,
    value: JsonView,
    m: int,
)
    requires
        0 <= k <= m < segs.len(),
        spec_set_path(v, segs, k, walked, value) is Ok,
    ensures
        spec_get_path(spec_set_path(v, segs, k, walked, value)->Ok_0, segs.subrange(0, m), k) is Some,
        spec_get_path(v, segs.subrange(0, m), k) is Some,
        same_layout(
            spec_get_path(spec_set_path(v, segs, k, walked, value)->Ok_0, segs.subrange(0, m), k)->Some_0,
            spec_get_path(v, segs.subrange(0, m), k)->Some_0,
        ),
    decreases segs.len() - k,
{
    let q = segs.subrange(0, m);
    let w = append_seg(walked, segs[k]);
    let nv = spec_set_path(v, segs, k, walked, value)->Ok_0;
    match segs[k] {
        PathSeg::Field(name) => match v {
            JsonView::Object(es) => {
                lemma_find_member(es, name);
                let i = find_member(es, name)->Some_0;
                let c = if k + 1 == segs.len() {
                    value
                } else {
                    spec_set_path(es[i].1, segs, k + 1, w, value)->Ok_0
                };
                let es2 = es.update(i, (es[i].0, c));
                assert(nv == JsonView::Object(es2));
                if k < m {
                    assert(q[k] == segs[k]);
                    lemma_find_member_at(es2, name, i);
                    lemma_set_keeps_layout_along(es[i].1, segs, k + 1, w, value, m);
                } else {
                    assert(same_layout(nv, v));
                }
            },
            _ => {},
        },
        PathSeg::Index(i) => match v {
            JsonView::Array(items) => {
                let c = if k + 1 == segs.len() {
                    value
                } else {
                    spec_set_path(items[i as int], segs, k + 1, w, value)->Ok_0
                };
                assert(nv == JsonView::Array(items.update(i as int, c)));
                if k < m {
                    assert(q[k] == segs[k]);
                    lemma_set_keeps_layout_along(items[i as int], segs, k + 1, w, value, m);
                }
            },
            _ => {},
        },
    }
}

proof fn lemma_set_puts_value_below(
    v: JsonView,
    segs: Seq<PathSeg>,
    k: int,
    walked: Seq<char>,
    value: JsonView,
    q: Seq<PathSeg>,
)
    requires
        0 <= k < segs.len() <= q.len(),
        q.subrange(0, segs.len() as int) == segs,
        spec_set_path(v, segs, k, walked, value) is Ok,
    ensures
        spec_get_path(spec_set_path(v, segs, k, walked, value)->Ok_0, q, k) == spec_get_path(
            value,
            q,
            segs.len() as int,
        ),
    decreases segs.len() - k,
{
    let w = append_seg(walked, segs[k]);
    assert(q[k] == q.subrange(0, segs.len() as int)[k]);
    match segs[k] {
        PathSeg::Field(name) => match v {
            JsonView::Object(es) => {
                lemma_find_member(es, name);
                let i = find_member(es, name)->Some_0;
                let c = if k + 1 == segs.len() {
                    value
                } else {
                    spec_set_path(es[i].1, segs, k + 1, w, value)->Ok_0
                };
                let es2 = es.update(i, (es[i].0, c));
                lemma_find_member_at(es2, name, i);
                if k + 1 < segs.len() {
                    lemma_set_puts_value_below(es[i].1, segs, k + 1, w, value, q);
                }
            },
            _ => {},
        },
        PathSeg::Index(i) => match v {
            JsonView::Array(items) => {
                if k + 1 < segs.len() {
                    lemma_set_puts_value_below(items[i as int], segs, k + 1, w, value, q);
                }
            },
            _ => {},
        },
    }
}

/// Along its path a set adds and removes nothing: every object on the way
/// keeps its member names in order and every array its length; and below
/// its place the document is the value that was set.
pub proof fn law_set_at_path_keeps_the_way(
    root: JsonView,
    path: Seq<char>,
    value: JsonView,
    m: int,
    below: Seq<PathSeg>,
)
    requires
        spec_set_at_path(root, path, value) is Ok,
        0 <= m < spec_parse_path(path)->Ok_0.len(),
    ensures
        ({
            let segs = spec_parse_path(path)->Ok_0;
            let after = spec_set_at_path(root, path, value)->Ok_0;
            &&& same_layout(
                spec_get_path(after, segs.subrange(0, m), 0)->Some_0,
                spec_get_path(root, segs.subrange(0, m), 0)->Some_0,
            )
            &&& spec_get_path(after, segs + below, 0) == spec_get_path(value, segs + below, segs.len() as int)
        }),
{
    let segs = spec_parse_path(path)->Ok_0;
    lemma_set_keeps_layout_along(root, segs, 0, Seq::empty(), value, m);
    assert((segs + below).subrange(0, segs.len() as int) =~= segs);
    lemma_set_puts_value_below(root, segs, 0, Seq::empty(), value, segs + below);
}

impl JsonValue {
    /// The member `name` of an object: its first member of that name.
    pub fn get_field(&self, name: &str) -> (r: Option<&JsonValue>)
        ensures
            match self.view() {
                JsonView::Object(es) => match find_member(es, name@) {
                    Some(i) => r matches Some(x) && x.view() == es[i].1,
                    None => r is None,
                },
                _ => r is None,
            },
    {
        match self {
            JsonValue::Object(es) => {
                proof {
                    lemma_object_view(*es);
                }
                let n = name.to_owned();
                match find_member_exec(es, &n) {
                    Some(i) => Some(&es[i].1),
                    None => None,
                }
            },
            _ => None,
        }
    }

    /// The element `i` of an array.
    pub fn get_index(&self, i: usize) -> (r: Option<&JsonValue>)
        ensures
            match self.view() {
                JsonView::Array(items) => if i < items.len() {
                    r matches Some(x) && x.view() == items[i as int]
                } else {
                    r is None
                },
                _ => r is None,
            },
    {
        match self {
            JsonValue::Array(items) => {
                proof {
                    lemma_array_view(*items);
                }
                if i < items.len() {
                    Some(&items[i])
                } else {
                    None
                }
            },
            _ => None,
        }
    }
}

} // verus!
