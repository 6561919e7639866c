//! A stable sort of items by keys that compare lexicographically.
use crate::text::chars_of;
use vstd::prelude::*;

verus! {

/// Whether key `a` comes strictly before key `b`: at the first place they
/// differ `a` is smaller, or `a` is a proper prefix of `b`.
pub open spec fn lex_lt(a: Seq<i128>, b: Seq<i128>) -> bool
    decreases a.len(),
{
    if a.len() == 0 {
        b.len() > 0
    } else if b.len() == 0 {
        false
    } else if a[0] != b[0] {
        a[0] < b[0]
    } else {
        lex_lt(a.drop_first(), b.drop_first())
    }
}

pub proof fn lemma_lex_lt_irreflexive(a: Seq<i128>)
    ensures
        !lex_lt(a, a),
    decreases a.len(),
{
    if a.len() > 0 {
        lemma_lex_lt_irreflexive(a.drop_first());
    }
}

pub proof fn lemma_lex_lt_transitive(a: Seq<i128>, b: Seq<i128>, c: Seq<i128>)
    requires
        lex_lt(a, b),
        lex_lt(b, c),
    ensures
        lex_lt(a, c),
    decreases a.len(),
{
    if a.len() > 0 && b.len() > 0 && c.len() > 0 && a[0] == b[0] && b[0] == c[0] {
        lemma_lex_lt_transitive(a.drop_first(), b.drop_first(), c.drop_first());
    }
}

pub proof fn lemma_lex_lt_total(a: Seq<i128>, b: Seq<i128>)
    ensures
        a =~= b || lex_lt(a, b) || lex_lt(b, a),
    decreases a.len(),
{
    if a.len() > 0 && b.len() > 0 && a[0] == b[0] {
        lemma_lex_lt_total(a.drop_first(), b.drop_first());
        if a.drop_first() =~= b.drop_first() {
            assert(a =~= seq![a[0]] + a.drop_first());
            assert(b =~= seq![b[0]] + b.drop_first());
        }
    }
}

pub proof fn lemma_lex_lt_asymmetric(a: Seq<i128>, b: Seq<i128>)
    requires
        lex_lt(a, b),
    ensures
        !lex_lt(b, a),
{
    if lex_lt(b, a) {
        lemma_lex_lt_transitive(a, b, a);
        lemma_lex_lt_irreflexive(a);
    }
}

/// Whether key `a` comes strictly before key `b` (see `lex_lt`).
pub fn lex_less(a: &Vec<i128>, b: &Vec<i128>) -> (r: bool)
    ensures
        r == lex_lt(a@, b@),
{
    let mut i: usize = 0;
    assert(a@.subrange(0, a@.len() as int) =~= a@);
    assert(b@.subrange(0, b@.len() as int) =~= b@);
    while i < a.len() && i < b.len()
        invariant
            i <= a@.len(),
            i <= b@.len(),
            a@.subrange(0, i as int) == b@.subrange(0, i as int),
            lex_lt(a@, b@) == lex_lt(a@.subrange(i as int, a@.len() as int), b@.subrange(i as int, b@.len() as int)),
        decreases a@.len() - i,
    {
        let ghost sa = a@.subrange(i as int, a@.len() as int);
        let ghost sb = b@.subrange(i as int, b@.len() as int);
        if a[i] != b[i] {
            assert(sa[0] == a@[i as int] && sb[0] == b@[i as int]);
            return a[i] < b[i];
        }
        assert(sa.drop_first() =~= a@.subrange(i + 1, a@.len() as int));
        assert(sb.drop_first() =~= b@.subrange(i + 1, b@.len() as int));
        assert(a@.subrange(0, i + 1) =~= a@.subrange(0, i as int).push(a@[i as int]));
        assert(b@.subrange(0, i + 1) =~= b@.subrange(0, i as int).push(b@[i as int]));
        i = i + 1;
    }
    let ghost sa = a@.subrange(i as int, a@.len() as int);
    let ghost sb = b@.subrange(i as int, b@.len() as int);
    i == a.len() && i < b.len()
}

/// The key of a keyed item.
pub open spec fn key_of<T>(e: (Seq<i128>, T)) -> Seq<i128> {
    e.0
}

/// Keyed items with their keys as mathematical values.
pub open spec fn keyed_view<T>(s: Seq<(Vec<i128>, T)>) -> Seq<(Seq<i128>, T)> {
    s.map_values(|e: (Vec<i128>, T)| (e.0@, e.1))
}

/// Whether no item of `s` has a key that comes before the key of an item
/// earlier in `s`.
pub open spec fn sorted_by_key<T>(s: Seq<(Seq<i128>, T)>) -> bool {
    forall|i: int, j: int|
        0 <= i < j < s.len() ==> !lex_lt(key_of(#[trigger] s[j]), key_of(#[trigger] s[i]))
}

/// Whether `p` places the items of `inp` as `out`: `out[k]` is `inp[p[k]]`,
/// each item of `inp` is placed once, and items with equal keys keep their order.
pub open spec fn stable_placement<T>(
    inp: Seq<(Seq<i128>, T)>,
    out: Seq<(Seq<i128>, T)>,
    p: Seq<int>,
) -> bool {
    &&& p.len() == out.len()
    &&& out.len() == inp.len()
    &&& forall|k: int| 0 <= k < p.len() ==> 0 <= #[trigger] p[k] < inp.len() && out[k] == inp[p[k]]
    &&& forall|k1: int, k2: int| 0 <= k1 < k2 < p.len() ==> #[trigger] p[k1] != #[trigger] p[k2]
    &&& forall|k1: int, k2: int|
        0 <= k1 < k2 < p.len() && key_of(#[trigger] out[k1]) == key_of(#[trigger] out[k2]) ==> p[k1]
            < p[k2]
}

/// Whether `out` is `inp` sorted by key, stably.
pub open spec fn is_stable_sort<T>(inp: Seq<(Seq<i128>, T)>, out: Seq<(Seq<i128>, T)>) -> bool {
    sorted_by_key(out) && exists|p: Seq<int>| stable_placement(inp, out, p)
}

/// Items with their values mapped by `f`.
pub open spec fn map_items<T, U>(s: Seq<(Seq<i128>, T)>, f: spec_fn(T) -> U) -> Seq<(Seq<i128>, U)> {
    s.map_values(|e: (Seq<i128>, T)| (e.0, f(e.1)))
}

/// A stable sort stays one when the items are mapped.
pub proof fn lemma_stable_sort_map<T, U>(
    inp: Seq<(Seq<i128>, T)>,
    out: Seq<(Seq<i128>, T)>,
    f: spec_fn(T) -> U,
)
    requires
        is_stable_sort(inp, out),
    ensures
        is_stable_sort(map_items(inp, f), map_items(out, f)),
{
    let p = choose|p: Seq<int>| stable_placement(inp, out, p);
    let mi = map_items(inp, f);
    let mo = map_items(out, f);
    assert forall|i: int, j: int| 0 <= i < j < mo.len() implies !lex_lt(
        key_of(#[trigger] mo[j]),
        key_of(#[trigger] mo[i]),
    ) by {
        assert(mo[j].0 == out[j].0 && mo[i].0 == out[i].0);
        assert(!lex_lt(key_of(out[j]), key_of(out[i])));
    }
    assert forall|k: int| 0 <= k < p.len() implies 0 <= #[trigger] p[k] < mi.len() && mo[k]
        == mi[p[k]] by {
        assert(out[k] == inp[p[k]]);
    }
    assert forall|k1: int, k2: int|
        0 <= k1 < k2 < p.len() && key_of(#[trigger] mo[k1]) == key_of(#[trigger] mo[k2]) implies p[k1]
        < p[k2] by {
        assert(mo[k1].0 == out[k1].0 && mo[k2].0 == out[k2].0);
        assert(key_of(out[k1]) == key_of(out[k2]));
    }
    assert(stable_placement(mi, mo, p));
}

/// The index at which an item with key `k` goes into `out`, which is sorted:
/// after every item whose key does not come after `k`.
fn insertion_point<T>(out: &Vec<(Vec<i128>, T)>, k: &Vec<i128>) -> (j: usize)
    requires
        sorted_by_key(keyed_view(out@)),
    ensures
        j <= out@.len(),
        forall|m: int| 0 <= m < j ==> !lex_lt(k@, key_of(#[trigger] keyed_view(out@)[m])),
        forall|m: int| j <= m < out@.len() ==> lex_lt(k@, key_of(#[trigger] keyed_view(out@)[m])),
{
    let ghost ov = keyed_view(out@);
    let mut j: usize = 0;
    while j < out.len()
        invariant
            j <= out@.len(),
            ov == keyed_view(out@),
            sorted_by_key(ov),
            forall|m: int| 0 <= m < j ==> !lex_lt(k@, key_of(#[trigger] ov[m])),
        decreases out@.len() - j,
    {
        assert(ov[j as int].0 == out@[j as int].0@);
        if lex_less(k, &out[j].0) {
            assert forall|m: int| j <= m < out@.len() implies lex_lt(k@, key_of(#[trigger] ov[m])) by {
                if m > j {
                    let a = key_of(ov[j as int]);
                    let b = key_of(ov[m]);
                    assert(!lex_lt(b, a));
                    lemma_lex_lt_total(a, b);
                    if lex_lt(a, b) {
                        lemma_lex_lt_transitive(k@, a, b);
                    }
                }
            }
            return j;
        }
        j = j + 1;
    }
    j
}

/// Sorts items by their keys, keeping the order of items with equal keys.
pub fn stable_sort_by_key<T>(items: Vec<(Vec<i128>, T)>) -> (out: Vec<(Vec<i128>, T)>)
    ensures
        is_stable_sort(keyed_view(items@), keyed_view(out@)),
{
    let ghost inp = keyed_view(items@);
    let n = items.len();
    let mut rest = items;
    let mut out: Vec<(Vec<i128>, T)> = Vec::new();
    let ghost mut p: Seq<int> = Seq::empty();
    let mut i: usize = 0;
    while i < n
        invariant
            n == inp.len(),
            i <= n,
            keyed_view(rest@) == inp.subrange(i as int, n as int),
            rest@.len() == n - i,
            sorted_by_key(keyed_view(out@)),
            p.len() == out@.len(),
            out@.len() == i,
            forall|k: int|
                0 <= k < p.len() ==> 0 <= #[trigger] p[k] < i && keyed_view(out@)[k] == inp[p[k]],
            forall|k1: int, k2: int| 0 <= k1 < k2 < p.len() ==> #[trigger] p[k1] != #[trigger] p[k2],
            forall|k1: int, k2: int|
                0 <= k1 < k2 < p.len() && key_of(#[trigger] keyed_view(out@)[k1]) == key_of(
                    #[trigger] keyed_view(out@)[k2],
                ) ==> p[k1] < p[k2],
        decreases n - i,
    {
        let ghost rv = rest@;
        let x = rest.remove(0);
        assert(keyed_view(rv)[0] == (x.0@, x.1));
        assert(keyed_view(rest@) =~= keyed_view(rv).subrange(1, rv.len() as int));
        assert(keyed_view(rest@) =~= inp.subrange(i + 1, n as int));
        let j = insertion_point(&out, &x.0);
        let ghost old_out = keyed_view(out@);
        let ghost old_p = p;
        let ghost kx = x.0@;
        let ghost xv = (x.0@, x.1);
        assert(xv == inp[i as int]);
        out.insert(j, x);
        proof {
            let nv = keyed_view(out@);
            p = old_p.insert(j as int, i as int);
            assert(forall|m: int| 0 <= m < j ==> nv[m] == old_out[m] && p[m] == old_p[m]);
            assert(forall|m: int|
                j < m < out@.len() ==> nv[m] == old_out[m - 1] && p[m] == old_p[m - 1]);
            assert(nv[j as int] == xv && p[j as int] == i);
            assert forall|a: int, b: int| 0 <= a < b < nv.len() implies !lex_lt(
                key_of(#[trigger] nv[b]),
                key_of(#[trigger] nv[a]),
            ) by {
                if a == j {
                    assert(lex_lt(kx, key_of(old_out[b - 1])));
                    lemma_lex_lt_asymmetric(kx, key_of(old_out[b - 1]));
                } else if b == j {
                    assert(!lex_lt(kx, key_of(old_out[a])));
                } else {
                    let a0 = if a < j {
                        a
                    } else {
                        a - 1
                    };
                    let b0 = if b < j {
                        b
                    } else {
                        b - 1
                    };
                    assert(nv[a] == old_out[a0] && nv[b] == old_out[b0]);
                }
            }
            assert forall|k: int| 0 <= k < p.len() implies 0 <= #[trigger] p[k] < i + 1 && nv[k]
                == inp[p[k]] by {
                if k > j {
                    assert(old_p[k - 1] < i);
                }
            }
            assert forall|k1: int, k2: int| 0 <= k1 < k2 < p.len() implies #[trigger] p[k1]
                != #[trigger] p[k2] by {
                if k1 == j {
                    assert(old_p[k2 - 1] < i);
                } else if k2 == j {
                    assert(old_p[k1] < i);
                } else {
                    let a0 = if k1 < j {
                        k1
                    } else {
                        k1 - 1
                    };
                    let b0 = if k2 < j {
                        k2
                    } else {
                        k2 - 1
                    };
                    assert(p[k1] == old_p[a0] && p[k2] == old_p[b0]);
                }
            }
            assert forall|k1: int, k2: int|
                0 <= k1 < k2 < p.len() && key_of(#[trigger] nv[k1]) == key_of(#[trigger] nv[k2])
                implies p[k1] < p[k2] by {
                if k1 == j {
                    assert(lex_lt(kx, key_of(old_out[k2 - 1])));
                    lemma_lex_lt_irreflexive(kx);
                } else if k2 == j {
                    assert(old_p[k1] < i);
                } else {
                    let a0 = if k1 < j {
                        k1
                    } else {
                        k1 - 1
                    };
                    let b0 = if k2 < j {
                        k2
                    } else {
                        k2 - 1
                    };
                    assert(p[k1] == old_p[a0] && p[k2] == old_p[b0]);
                    assert(nv[k1] == old_out[a0] && nv[k2] == old_out[b0]);
                }
            }
        }
        i = i + 1;
    }
    assert(stable_placement(inp, keyed_view(out@), p));
    out
}

/// The key of a name that orders names as strings compare: by code point,
/// character by character.
pub open spec fn code_key(s: Seq<char>) -> Seq<i128> {
    s.map_values(|c: char| (c as u32) as i128)
}

proof fn lemma_char_code_injective(x: char, y: char)
    ensures
        (x as u32) as i128 == (y as u32) as i128 ==> x == y,
{
}

proof fn lemma_code_key_injective(a: Seq<char>, b: Seq<char>)
    requires
        code_key(a) == code_key(b),
    ensures
        a == b,
{
    assert(a.len() == code_key(a).len());
    assert(b.len() == code_key(b).len());
    assert forall|k: int| 0 <= k < a.len() implies a[k] == b[k] by {
        assert(k < b.len());
        assert(code_key(a)[k] == (a[k] as u32) as i128);
        assert(code_key(b)[k] == (b[k] as u32) as i128);
        assert(code_key(a)[k] == code_key(b)[k]);
        lemma_char_code_injective(a[k], b[k]);
    }
    assert(a =~= b);
}

fn code_key_exec(s: &str) -> (k: Vec<i128>)
    ensures
        k@ == code_key(s@),
{
    let cs = chars_of(s);
    let mut k: Vec<i128> = Vec::new();
    let mut i: usize = 0;
    while i < cs.len()
        invariant
            cs@ == s@,
            i <= cs@.len(),
            k@ == code_key(cs@.subrange(0, i as int)),
        decreases cs@.len() - i,
    {
        k.push((cs[i] as u32) as i128);
        assert(code_key(cs@.subrange(0, i + 1)) =~= code_key(cs@.subrange(0, i as int)).push(
            (cs@[i as int] as u32) as i128,
        ));
        i = i + 1;
    }
    assert(cs@.subrange(0, cs@.len() as int) =~= s@);
    k
}

/// Names as mathematical values.
pub open spec fn names_view(v: Seq<String>) -> Seq<Seq<char>> {
    v.map_values(|n: String| n@)
}

/// Whether the names strictly increase as strings compare, so that none
/// occurs twice.
pub open spec fn strictly_sorted(v: Seq<Seq<char>>) -> bool {
    forall|i: int, j: int| 0 <= i < j < v.len() ==> lex_lt(code_key(#[trigger] v[i]), code_key(#[trigger] v[j]))
}

/// The names of `names`, each once, in increasing string order: the order
/// in which a sorted set of strings lists them.
pub fn sorted_name_set(names: &Vec<String>) -> (out: Vec<String>)
    ensures
        strictly_sorted(names_view(out@)),
        forall|n: Seq<char>| #[trigger] names_view(out@).contains(n) <==> names_view(names@).contains(n),
{
    let mut out: Vec<String> = Vec::new();
    let mut keys: Vec<Vec<i128>> = Vec::new();
    let mut i: usize = 0;
    while i < names.len()
        invariant
            i <= names@.len(),
            keys@.len() == out@.len(),
            forall|k: int| 0 <= k < keys@.len() ==> #[trigger] keys@[k]@ == code_key(out@[k]@),
            strictly_sorted(names_view(out@)),
            forall|n: Seq<char>| #[trigger] names_view(out@).contains(n) <==> names_view(
                names@.subrange(0, i as int),
            ).contains(n),
        decreases names@.len() - i,
    {
        let name = &names[i];
        let key = code_key_exec(name.as_str());
        let ghost nv = name@;
        // The first place whose name does not come before `name`.
        let mut j: usize = 0;
        while j < out.len() && lex_less(&keys[j], &key)
            invariant
                j <= out@.len(),
                keys@.len() == out@.len(),
                key@ == code_key(nv),
                forall|k: int| 0 <= k < keys@.len() ==> #[trigger] keys@[k]@ == code_key(out@[k]@),
                forall|k: int| 0 <= k < j ==> lex_lt(code_key(#[trigger] out@[k]@), code_key(nv)),
            decreases out@.len() - j,
        {
            j = j + 1;
        }
        let ghost ov = names_view(out@);
        let present = j < out.len() && !lex_less(&key, &keys[j]);
        proof {
            assert(names_view(names@.subrange(0, i + 1)) =~= names_view(names@.subrange(0, i as int)).push(nv));
            if j < out@.len() {
                assert(!lex_lt(code_key(out@[j as int]@), code_key(nv)));
                lemma_lex_lt_total(code_key(out@[j as int]@), code_key(nv));
                if present {
                    assert(code_key(out@[j as int]@) =~= code_key(nv));
                    lemma_code_key_injective(out@[j as int]@, nv);
                    assert(ov[j as int] == nv);
                }
            }
        }
        if present {
            proof {
                assert forall|n: Seq<char>| #[trigger] names_view(out@).contains(n) <==> names_view(
                    names@.subrange(0, i + 1),
                ).contains(n) by {
                    vstd::seq_lib::lemma_seq_contains_after_push(
                        names_view(names@.subrange(0, i as int)),
                        nv,
                        n,
                    );
                    if n == nv {
                        assert(ov[j as int] == nv);
                    }
                }
            }
        } else {
            let ghost before = out@;
            let ghost kb = keys@;
            out.insert(j, name.clone());
            keys.insert(j, key);
            proof {
                assert(names_view(out@) =~= ov.insert(j as int, nv));
                assert forall|a: int, b: int| 0 <= a < b < names_view(out@).len() implies lex_lt(
                    code_key(#[trigger] names_view(out@)[a]),
                    code_key(#[trigger] names_view(out@)[b]),
                ) by {
                    let w = names_view(out@);
                    if b < j {
                        assert(w[a] == ov[a] && w[b] == ov[b]);
                    } else if b == j {
                        assert(w[a] == ov[a]);
                    } else if a == j {
                        assert(w[b] == ov[b - 1]);
                        assert(lex_lt(code_key(nv), code_key(ov[j as int]))) by {
                            lemma_lex_lt_total(code_key(ov[j as int]), code_key(nv));
                        }
                        if b - 1 > j {
                            lemma_lex_lt_transitive(code_key(nv), code_key(ov[j as int]), code_key(ov[b - 1]));
                        }
                    } else if a < j {
                        assert(w[a] == ov[a] && w[b] == ov[b - 1]);
                    } else {
                        assert(w[a] == ov[a - 1] && w[b] == ov[b - 1]);
                    }
                }
                assert forall|n: Seq<char>| #[trigger] names_view(out@).contains(n) <==> (ov.contains(n)
                    || n == nv) by {
                    let w = names_view(out@);
                    if ov.contains(n) {
                        let k = choose|k: int| 0 <= k < ov.len() && ov[k] == n;
                        if k < j {
                            assert(w[k] == n);
                        } else {
                            assert(w[k + 1] == n);
                        }
                    }
                    if n == nv {
                        assert(w[j as int] == nv);
                    }
                    if w.contains(n) {
                        let k = choose|k: int| 0 <= k < w.len() && w[k] == n;
                        if k < j {
                            assert(ov[k] == n);
                        } else if k > j {
                            assert(ov[k - 1] == n);
                        }
                    }
                }
                assert forall|n: Seq<char>| #[trigger] names_view(out@).contains(n) <==> names_view(
                    names@.subrange(0, i + 1),
                ).contains(n) by {
                    vstd::seq_lib::lemma_seq_contains_after_push(
                        names_view(names@.subrange(0, i as int)),
                        nv,
                        n,
                    );
                }
                assert forall|k: int| 0 <= k < keys@.len() implies #[trigger] keys@[k]@ == code_key(out@[k]@) by {
                    if k < j {
                        assert(keys@[k] == kb[k] && out@[k] == before[k]);
                    } else if k > j {
                        assert(keys@[k] == kb[k - 1] && out@[k] == before[k - 1]);
                    }
                }
            }
        }
        i = i + 1;
    }
    proof {
        assert(names@.subrange(0, names@.len() as int) =~= names@);
    }
    out
}

} // verus!
