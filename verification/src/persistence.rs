//! Reading the saved layout store: the page URLs it records, whether it is
//! stale, and the order in which tabs are restored.
use crate::text::{
    chars_of, find_char_from, find_from, find_pattern_from, first_index_from,
    lemma_find_from_bounds, lemma_first_index_from_bounds, line_ranges, range_starts_with,
    range_texts, spec_lines, spec_trim, starts_with, str_eq, string_of_range, trim_bounds,
};
use crate::sorting::{
    is_stable_sort, key_of, keyed_view, lex_lt, stable_placement, stable_sort_by_key,
};
use vstd::prelude::*;
use vstd::string::*;

verus! {

/// The line that opens the page metadata of a stored entity.
pub open spec fn page_metadata_key() -> Seq<char> {
    "\"vmux_header::system::PageMetadata\":"@
}

/// The URL a trimmed line `url: "…"` records: the text up to the next quote.
pub open spec fn url_in_line(t: Seq<char>) -> Option<Seq<char>> {
    let prefix = "url: \""@;
    if starts_with(t, prefix) {
        let rest = t.subrange(prefix.len() as int, t.len() as int);
        let q = first_index_from(rest, '"', 0);
        if q < rest.len() {
            Some(rest.subrange(0, q))
        } else {
            None
        }
    } else {
        None
    }
}

/// The URLs recorded in page metadata among `lines[i..]`: a line that opens
/// page metadata enters it, a line `),` inside it leaves it, and inside it
/// every `url: "…"` line records a URL.
pub open spec fn metadata_urls_from(lines: Seq<Seq<char>>, i: int, inside: bool) -> Seq<Seq<char>>
    decreases lines.len() - i,
{
    if i < 0 || i >= lines.len() {
        Seq::empty()
    } else {
        let t = spec_trim(lines[i]);
        if starts_with(t, page_metadata_key()) {
            metadata_urls_from(lines, i + 1, true)
        } else if !inside {
            metadata_urls_from(lines, i + 1, false)
        } else {
            let next = !(t == "),"@);
            match url_in_line(t) {
                Some(u) => seq![u] + metadata_urls_from(lines, i + 1, next),
                None => metadata_urls_from(lines, i + 1, next),
            }
        }
    }
}

/// The page URLs a store body records (see `metadata_urls_from`).
pub open spec fn spec_page_metadata_urls(body: Seq<char>) -> Seq<Seq<char>> {
    metadata_urls_from(spec_lines(body), 0, false)
}

fn literal_chars(s: &str) -> (v: Vec<char>)
    ensures
        v@ == s@,
{
    chars_of(s)
}

/// The page URLs a store body records (see `spec_page_metadata_urls`).
pub fn page_metadata_urls(body: &str) -> (urls: Vec<String>)
    ensures
        urls@.map_values(|u: String| u@) == spec_page_metadata_urls(body@),
{
    let cs = chars_of(body);
    let rs = line_ranges(&cs);
    let key = literal_chars("\"vmux_header::system::PageMetadata\":");
    let url_prefix = literal_chars("url: \"");
    let close = literal_chars("),");
    let ghost lines = spec_lines(body@);
    let mut urls: Vec<String> = Vec::new();
    let mut inside = false;
    let mut i: usize = 0;
    assert(range_texts(cs@, rs@).len() == rs@.len());
    while i < rs.len()
        invariant
            cs@ == body@,
            lines == spec_lines(body@),
            range_texts(cs@, rs@) == lines,
            forall|j: int| 0 <= j < rs@.len() ==> (#[trigger] rs@[j]).0 <= rs@[j].1 <= cs@.len(),
            key@ == page_metadata_key(),
            url_prefix@ == "url: \""@,
            close@ == "),"@,
            i <= rs@.len(),
            urls@.map_values(|u: String| u@) + metadata_urls_from(lines, i as int, inside)
                == spec_page_metadata_urls(body@),
        decreases rs@.len() - i,
    {
        let (p, e) = rs[i];
        assert(rs@[i as int].0 <= rs@[i as int].1 <= cs@.len());
        assert(lines[i as int] == cs@.subrange(p as int, e as int));
        let (a, b) = trim_bounds(&cs, p, e);
        let ghost t = cs@.subrange(a as int, b as int);
        assert(t == spec_trim(lines[i as int]));
        let ghost before = urls@.map_values(|u: String| u@);
        if range_starts_with(&cs, a, b, &key) {
            inside = true;
        } else if inside {
            let is_close = b - a == 2 && cs[a] == ')' && cs[a + 1] == ',';
            proof {
                reveal_strlit("),");
                assert("),"@.len() == 2);
                if is_close {
                    assert(t =~= "),"@);
                }
                if t == "),"@ {
                    assert(t[0] == ')');
                    assert(t[1] == ',');
                    assert(cs@[a as int] == t[0]);
                    assert(cs@[a + 1] == t[1]);
                }
            }
            assert(is_close == (t == "),"@));
            if range_starts_with(&cs, a, b, &url_prefix) {
                let start = a + url_prefix.len();
                let q = find_char_from(&cs, '"', start);
                proof {
                    lemma_first_index_from_bounds(cs@, '"', start as int);
                    let rest = t.subrange(url_prefix@.len() as int, t.len() as int);
                    assert(rest =~= cs@.subrange(start as int, b as int));
                    lemma_first_index_from_bounds(rest, '"', 0);
                    assert forall|j: int| start <= j < q && j < b implies cs@[j] != '"' by {}
                    if q < b {
                        assert(rest[q - start] == '"');
                        assert(first_index_from(rest, '"', 0) == q - start) by {
                            lemma_first_index_from_bounds(rest, '"', 0);
                            let f = first_index_from(rest, '"', 0);
                            if f < q - start {
                                assert(rest[f] == cs@[start + f]);
                            }
                        }
                    } else {
                        assert(first_index_from(rest, '"', 0) >= rest.len()) by {
                            lemma_first_index_from_bounds(rest, '"', 0);
                            let f = first_index_from(rest, '"', 0);
                            if f < rest.len() {
                                assert(rest[f] == cs@[start + f]);
                            }
                        }
                    }
                }
                if q < b {
                    let u = string_of_range(&cs, start, q);
                    urls.push(u);
                    proof {
                        let rest = t.subrange(url_prefix@.len() as int, t.len() as int);
                        assert(rest.subrange(0, q - start) =~= cs@.subrange(start as int, q as int));
                        assert(urls@.map_values(|u: String| u@) =~= before.push(
                            cs@.subrange(start as int, q as int),
                        ));
                        assert(before + metadata_urls_from(lines, i as int, true) =~= urls@.map_values(
                            |u: String| u@,
                        ) + metadata_urls_from(lines, i + 1, !is_close));
                    }
                }
            }
            inside = !is_close;
        }
        i = i + 1;
    }
    proof {
        assert(metadata_urls_from(lines, i as int, inside) =~= Seq::<Seq<char>>::empty());
        assert(urls@.map_values(|u: String| u@) + Seq::<Seq<char>>::empty() =~= urls@.map_values(
            |u: String| u@,
        ));
    }
    urls
}

/// Whether a store records page URLs and every one of them is blank: a
/// layout left with only an empty prompt.
pub open spec fn spec_prompt_only_empty_url(body: Seq<char>) -> bool {
    let urls = spec_page_metadata_urls(body);
    urls.len() > 0 && forall|i: int| 0 <= i < urls.len() ==> spec_trim(#[trigger] urls[i]).len() == 0
}

/// Whether a store records page URLs and every one of them is blank.
pub fn space_is_prompt_only_empty_url(body: &str) -> (res: bool)
    ensures
        res == spec_prompt_only_empty_url(body@),
{
    let urls = page_metadata_urls(body);
    let ghost uv = urls@.map_values(|u: String| u@);
    if urls.len() == 0 {
        return false;
    }
    let mut i: usize = 0;
    while i < urls.len()
        invariant
            uv == urls@.map_values(|u: String| u@),
            uv == spec_page_metadata_urls(body@),
            i <= urls@.len(),
            forall|j: int| 0 <= j < i ==> spec_trim(#[trigger] uv[j]).len() == 0,
        decreases urls@.len() - i,
    {
        let cs = chars_of(urls[i].as_str());
        let (a, b) = trim_bounds(&cs, 0, cs.len());
        assert(cs@.subrange(0, cs@.len() as int) =~= uv[i as int]);
        if a != b {
            assert(spec_trim(uv[i as int]).len() != 0);
            return false;
        }
        i = i + 1;
    }
    true
}

/// A store body whose one entity has a component stored under `key`.
pub open spec fn spec_store_body_with_key(key: Seq<char>) -> Seq<char> {
    "(\n  resources: {},\n  entities: {\n    1: (\n      components: {\n        \""@ + key
        + "\": (),\n      },\n    ),\n  },\n)\n"@
}

/// A store body whose one entity has a component stored under `key`.
pub fn store_body_with_key(key: &str) -> (s: String)
    ensures
        s@ == spec_store_body_with_key(key@),
{
    let s = "(\n  resources: {},\n  entities: {\n    1: (\n      components: {\n        \"".to_owned();
    let s = s.concat(key);
    s.concat("\": (),\n      },\n    ),\n  },\n)\n")
}

/// The prefix of agent URLs.
pub open spec fn agent_prefix() -> Seq<char> {
    "vmux://agent/"@
}

/// The pieces of `s` after each occurrence of `pat` at or after `i`, each
/// running to the next occurrence, as `str::split` cuts them.
pub open spec fn pieces_after(s: Seq<char>, pat: Seq<char>, i: int) -> Seq<Seq<char>>
    decreases s.len() - i,
{
    if i < 0 || pat.len() == 0 {
        Seq::empty()
    } else {
        let j = find_from(s, pat, i);
        if j >= s.len() {
            Seq::empty()
        } else {
            proof {
                lemma_find_from_bounds(s, pat, i);
            }
            let start = j + pat.len();
            let k = find_from(s, pat, start);
            seq![s.subrange(start, k)] + pieces_after(s, pat, start)
        }
    }
}

/// The agent URLs a store body mentions: each occurrence of the agent prefix
/// with what follows it up to the next quote or the next occurrence.
pub open spec fn spec_agent_urls(body: Seq<char>) -> Seq<Seq<char>> {
    pieces_after(body, agent_prefix(), 0).map_values(
        |piece: Seq<char>| agent_prefix() + piece.subrange(0, first_index_from(piece, '"', 0)),
    )
}

/// The agent URLs a store body mentions (see `spec_agent_urls`), for the
/// staleness check of each.
pub fn agent_urls_in(body: &str) -> (urls: Vec<String>)
    ensures
        urls@.map_values(|u: String| u@) == spec_agent_urls(body@),
{
    let cs = chars_of(body);
    let pat = chars_of("vmux://agent/");
    let n = cs.len();
    let m = pat.len();
    let ghost f = |piece: Seq<char>| agent_prefix() + piece.subrange(0, first_index_from(piece, '"', 0));
    proof {
        reveal_strlit("vmux://agent/");
    }
    assert(m == 13);
    let mut urls: Vec<String> = Vec::new();
    let mut i: usize = 0;
    let mut j = find_pattern_from(&cs, &pat, 0);
    proof {
        lemma_find_from_bounds(cs@, pat@, 0);
    }
    while j < n
        invariant
            cs@ == body@,
            pat@ == agent_prefix(),
            n == cs@.len(),
            m == pat@.len(),
            m == 13,
            i <= n,
            j as int == find_from(cs@, pat@, i as int),
            j < n ==> i <= j && j + m <= n,
            f == (|piece: Seq<char>| agent_prefix() + piece.subrange(
                0,
                first_index_from(piece, '"', 0),
            )),
            urls@.map_values(|u: String| u@) + pieces_after(cs@, pat@, i as int).map_values(f)
                == spec_agent_urls(body@),
        decreases n - i,
    {
        let start = j + m;
        let k = find_pattern_from(&cs, &pat, start);
        proof {
            lemma_find_from_bounds(cs@, pat@, start as int);
        }
        let q = find_char_from(&cs, '"', start);
        let end = if q < k {
            q
        } else {
            k
        };
        let ghost piece = cs@.subrange(start as int, k as int);
        proof {
            lemma_first_index_from_bounds(cs@, '"', start as int);
            lemma_first_index_from_bounds(piece, '"', 0);
            let fi = first_index_from(piece, '"', 0);
            if fi < piece.len() {
                assert(piece[fi] == cs@[start + fi]);
            }
            if q < k {
                assert(piece[q - start] == '"');
            } else {
                assert forall|x: int| 0 <= x < piece.len() implies piece[x] != '"' by {
                    assert(piece[x] == cs@[start + x]);
                }
            }
            assert(fi == end - start);
            assert(piece.subrange(0, fi) =~= cs@.subrange(start as int, end as int));
        }
        let tail = string_of_range(&cs, start, end);
        let u = "vmux://agent/".to_owned().concat(tail.as_str());
        let ghost before = urls@.map_values(|u: String| u@);
        urls.push(u);
        proof {
            assert(urls@.map_values(|u: String| u@) =~= before.push(f(piece)));
            assert(pieces_after(cs@, pat@, i as int) == seq![piece] + pieces_after(
                cs@,
                pat@,
                start as int,
            ));
            assert((seq![piece] + pieces_after(cs@, pat@, start as int)).map_values(f) =~= seq![
                f(piece),
            ] + pieces_after(cs@, pat@, start as int).map_values(f));
            assert(before + (seq![f(piece)] + pieces_after(cs@, pat@, start as int).map_values(f))
                =~= before.push(f(piece)) + pieces_after(cs@, pat@, start as int).map_values(f));
        }
        i = start;
        j = k;
    }
    proof {
        assert(pieces_after(cs@, pat@, i as int) =~= Seq::<Seq<char>>::empty());
        assert(urls@.map_values(|u: String| u@) + Seq::<Seq<char>>::empty() =~= urls@.map_values(
            |u: String| u@,
        ));
    }
    urls
}

/// The key a tab is restored in order of: its position, missing ones
/// last, then its creation time, missing ones first.
pub open spec fn tab_key(t: (u64, Option<u32>, Option<i64>)) -> Seq<i128> {
    seq![
        (match t.1 {
            Some(o) => o,
            None => u32::MAX,
        }) as i128,
        (match t.2 {
            Some(c) => c,
            None => 0,
        }) as i128,
    ]
}

/// A tab's position for ordering (missing ones last).
pub open spec fn tab_position(t: (u64, Option<u32>, Option<i64>)) -> int {
    match t.1 {
        Some(o) => o as int,
        None => u32::MAX as int,
    }
}

/// A tab's creation time for ordering (missing ones first).
pub open spec fn tab_created(t: (u64, Option<u32>, Option<i64>)) -> int {
    match t.2 {
        Some(c) => c as int,
        None => 0,
    }
}

/// Whether tab `a` may be restored before tab `b`: a smaller position, or
/// the same position and a creation time no later.
pub open spec fn tab_not_after(a: (u64, Option<u32>, Option<i64>), b: (u64, Option<u32>, Option<i64>)) -> bool {
    tab_position(a) < tab_position(b) || (tab_position(a) == tab_position(b) && tab_created(a)
        <= tab_created(b))
}

/// Whether two tabs tie: the same position and creation time.
pub open spec fn tabs_tie(a: (u64, Option<u32>, Option<i64>), b: (u64, Option<u32>, Option<i64>)) -> bool {
    tab_position(a) == tab_position(b) && tab_created(a) == tab_created(b)
}

proof fn lemma_tab_key_order(a: (u64, Option<u32>, Option<i64>), b: (u64, Option<u32>, Option<i64>))
    ensures
        !lex_lt(tab_key(b), tab_key(a)) == tab_not_after(a, b),
        tabs_tie(a, b) ==> tab_key(a) == tab_key(b),
{
    let ka = tab_key(a);
    let kb = tab_key(b);
    assert(ka[0] == tab_position(a) && ka[1] == tab_created(a));
    assert(kb[0] == tab_position(b) && kb[1] == tab_created(b));
    assert(ka.drop_first().drop_first().len() == 0);
    assert(kb.drop_first().drop_first().len() == 0);
    reveal_with_fuel(lex_lt, 3);
    if tabs_tie(a, b) {
        assert(ka =~= kb);
    }
}

/// Tabs are restored in order: the restored ids are the tabs' ids, each
/// tab once, ordered by position (missing positions last) and then by
/// creation time (missing times first), with ties in the order the tabs came.
pub proof fn law_tabs_restore_in_order(tabs: Seq<(u64, Option<u32>, Option<i64>)>, ids: Seq<u64>)
    requires
        exists|sorted: Seq<(Seq<i128>, u64)>|
            is_stable_sort(tabs_keyed(tabs), sorted) && ids == sorted.map_values(
                |e: (Seq<i128>, u64)| e.1,
            ),
    ensures
        exists|p: Seq<int>|
            {
                &&& p.len() == tabs.len()
                &&& ids.len() == tabs.len()
                &&& forall|k: int| 0 <= k < p.len() ==> 0 <= #[trigger] p[k] < tabs.len() && ids[k] == tabs[p[k]].0
                &&& forall|k1: int, k2: int| 0 <= k1 < k2 < p.len() ==> #[trigger] p[k1] != #[trigger] p[k2]
                &&& forall|k1: int, k2: int|
                    0 <= k1 < k2 < p.len() ==> tab_not_after(tabs[#[trigger] p[k1]], tabs[#[trigger] p[k2]])
                &&& forall|k1: int, k2: int|
                    0 <= k1 < k2 < p.len() && tabs_tie(tabs[#[trigger] p[k1]], tabs[#[trigger] p[k2]]) ==> p[k1]
                        < p[k2]
            },
{
    let sorted = choose|sorted: Seq<(Seq<i128>, u64)>|
        is_stable_sort(tabs_keyed(tabs), sorted) && ids == sorted.map_values(|e: (Seq<i128>, u64)| e.1);
    let inp = tabs_keyed(tabs);
    let p = choose|p: Seq<int>| stable_placement(inp, sorted, p);
    assert forall|k: int| 0 <= k < p.len() implies 0 <= #[trigger] p[k] < tabs.len() && ids[k] == tabs[p[k]].0
        && sorted[k].0 == tab_key(tabs[p[k]]) by {
        assert(sorted[k] == inp[p[k]]);
    }
    assert forall|k1: int, k2: int| 0 <= k1 < k2 < p.len() implies tab_not_after(
        tabs[#[trigger] p[k1]],
        tabs[#[trigger] p[k2]],
    ) by {
        assert(!lex_lt(key_of(sorted[k2]), key_of(sorted[k1])));
        lemma_tab_key_order(tabs[p[k1]], tabs[p[k2]]);
    }
    assert forall|k1: int, k2: int|
        0 <= k1 < k2 < p.len() && tabs_tie(tabs[#[trigger] p[k1]], tabs[#[trigger] p[k2]]) implies p[k1]
        < p[k2] by {
        lemma_tab_key_order(tabs[p[k1]], tabs[p[k2]]);
        assert(key_of(sorted[k1]) == key_of(sorted[k2]));
    }
}

/// Tabs keyed by `tab_key`.
pub open spec fn tabs_keyed(tabs: Seq<(u64, Option<u32>, Option<i64>)>) -> Seq<(Seq<i128>, u64)> {
    tabs.map_values(|t: (u64, Option<u32>, Option<i64>)| (tab_key(t), t.0))
}

/// The tabs (entity, position, creation time) in the order they are
/// restored: stably sorted by `tab_key`.
pub fn sort_tabs_by_order(tabs: Vec<(u64, Option<u32>, Option<i64>)>) -> (ids: Vec<u64>)
    ensures
        exists|sorted: Seq<(Seq<i128>, u64)>|
            is_stable_sort(tabs_keyed(tabs@), sorted) && ids@ == sorted.map_values(
                |e: (Seq<i128>, u64)| e.1,
            ),
{
    let mut keyed: Vec<(Vec<i128>, u64)> = Vec::new();
    let mut i: usize = 0;
    while i < tabs.len()
        invariant
            i <= tabs@.len(),
            keyed_view(keyed@) == tabs_keyed(tabs@).subrange(0, i as int),
        decreases tabs@.len() - i,
    {
        let (id, order, created) = tabs[i];
        let o: u32 = match order {
            Some(o) => o,
            None => u32::MAX,
        };
        let c: i64 = match created {
            Some(c) => c,
            None => 0,
        };
        let mut key: Vec<i128> = Vec::new();
        key.push(o as i128);
        key.push(c as i128);
        assert(key@ =~= tab_key(tabs@[i as int]));
        assert(id == tabs@[i as int].0);
        let ghost before = keyed_view(keyed@);
        keyed.push((key, id));
        assert(keyed_view(keyed@) =~= before.push((tab_key(tabs@[i as int]), tabs@[i as int].0)));
        assert(tabs_keyed(tabs@).subrange(0, i + 1) =~= tabs_keyed(tabs@).subrange(0, i as int).push(
            tabs_keyed(tabs@)[i as int],
        ));
        i = i + 1;
    }
    assert(tabs_keyed(tabs@).subrange(0, tabs@.len() as int) =~= tabs_keyed(tabs@));
    let sorted = stable_sort_by_key(keyed);
    let mut ids: Vec<u64> = Vec::new();
    let mut k: usize = 0;
    while k < sorted.len()
        invariant
            k <= sorted@.len(),
            ids@ == keyed_view(sorted@).map_values(|e: (Seq<i128>, u64)| e.1).subrange(0, k as int),
        decreases sorted@.len() - k,
    {
        ids.push(sorted[k].1);
        assert(ids@ =~= keyed_view(sorted@).map_values(|e: (Seq<i128>, u64)| e.1).subrange(0, k + 1));
        k = k + 1;
    }
    assert(ids@ =~= keyed_view(sorted@).map_values(|e: (Seq<i128>, u64)| e.1));
    ids
}

/// `s` without the '/' characters at its end.
pub open spec fn trim_end_slashes(s: Seq<char>) -> Seq<char>
    decreases s.len(),
{
    if s.len() > 0 && s.last() == '/' {
        trim_end_slashes(s.drop_last())
    } else {
        s
    }
}

/// The addresses of the shell's own pages that a restored stack may show.
#[derive(Clone, Debug)]
pub struct PageUrls {
    pub services: String,
    pub terminal: String,
    pub spaces: String,
    pub settings: String,
}

/// What a restored stack gets.
#[derive(Clone, Debug, PartialEq, Eq)]
pub enum StackView {
    /// A stack with no page address is removed.
    Remove,
    /// The stack already holds a browser.
    Keep,
    /// The process monitor page.
    ProcessesMonitor,
    /// A terminal, in the saved launch's directory where there is one.
    Terminal,
    /// The agent of kind `kind` (its position in the list of agent
    /// prefixes), resuming `session_id` where the address names one.
    Agent { kind: usize, session_id: Option<String> },
    /// The spaces page.
    Spaces,
    /// The settings page.
    Settings,
    /// A browser on the stack's address.
    Browser,
}

/// The first agent prefix from `k` on that `url` starts with.
pub open spec fn first_agent(url: Seq<char>, prefixes: Seq<Seq<char>>, k: int) -> Option<int>
    decreases prefixes.len() - k,
{
    if k < 0 || k >= prefixes.len() {
        None
    } else if starts_with(url, prefixes[k]) {
        Some(k)
    } else {
        first_agent(url, prefixes, k + 1)
    }
}

proof fn lemma_first_agent(url: Seq<char>, prefixes: Seq<Seq<char>>, k: int)
    requires
        0 <= k,
    ensures
        match first_agent(url, prefixes, k) {
            Some(j) => k <= j < prefixes.len() && starts_with(url, prefixes[j]),
            None => true,
        },
    decreases prefixes.len() - k,
{
    if k < prefixes.len() && !starts_with(url, prefixes[k]) {
        lemma_first_agent(url, prefixes, k + 1);
    }
}

/// What a restored stack with the page address `url` gets: an empty address
/// removes it; a stack with a browser keeps it; otherwise the first of these
/// whose address (without its trailing '/') starts `url` decides: the
/// process monitor, a terminal, an agent (by its own prefix; what follows
/// the prefix, if anything, is the session to resume), the spaces page, the
/// settings page; any other address gets a browser.
pub open spec fn spec_stack_view(
    url: Seq<char>,
    has_browser: bool,
    services: Seq<char>,
    terminal: Seq<char>,
    spaces: Seq<char>,
    settings: Seq<char>,
    agents: Seq<Seq<char>>,
) -> (StackViewKind, Option<Seq<char>>) {
    if url.len() == 0 {
        (StackViewKind::Remove, None)
    } else if has_browser {
        (StackViewKind::Keep, None)
    } else if starts_with(url, trim_end_slashes(services)) {
        (StackViewKind::ProcessesMonitor, None)
    } else if starts_with(url, trim_end_slashes(terminal)) {
        (StackViewKind::Terminal, None)
    } else if first_agent(url, agents, 0) is Some {
        let k = first_agent(url, agents, 0)->Some_0;
        let rest = url.subrange(agents[k].len() as int, url.len() as int);
        (StackViewKind::Agent(k as nat), if rest.len() > 0 {
            Some(rest)
        } else {
            None
        })
    } else if starts_with(url, trim_end_slashes(spaces)) {
        (StackViewKind::Spaces, None)
    } else if starts_with(url, trim_end_slashes(settings)) {
        (StackViewKind::Settings, None)
    } else {
        (StackViewKind::Browser, None)
    }
}

/// The kind of a `StackView`, with the agent's position.
pub enum StackViewKind {
    Remove,
    Keep,
    ProcessesMonitor,
    Terminal,
    Agent(nat),
    Spaces,
    Settings,
    Browser,
}

impl StackView {
    /// The kind of the view and the session it resumes.
    pub open spec fn kind(self) -> (StackViewKind, Option<Seq<char>>) {
        match self {
            StackView::Remove => (StackViewKind::Remove, None),
            StackView::Keep => (StackViewKind::Keep, None),
            StackView::ProcessesMonitor => (StackViewKind::ProcessesMonitor, None),
            StackView::Terminal => (StackViewKind::Terminal, None),
            StackView::Agent { kind, session_id } => (
                StackViewKind::Agent(kind as nat),
                match session_id {
                    Some(s) => Some(s@),
                    None => None,
                },
            ),
            StackView::Spaces => (StackViewKind::Spaces, None),
            StackView::Settings => (StackViewKind::Settings, None),
            StackView::Browser => (StackViewKind::Browser, None),
        }
    }
}

fn trimmed_page(url: &str) -> (v: Vec<char>)
    ensures
        v@ == trim_end_slashes(url@),
{
    chars_of(trim_end_slashes_str(url))
}

fn url_starts_with(cs: &Vec<char>, prefix: &Vec<char>) -> (r: bool)
    ensures
        r == starts_with(cs@, prefix@),
{
    let r = range_starts_with(cs, 0, cs.len(), prefix);
    proof {
        assert(cs@.subrange(0, cs@.len() as int) =~= cs@);
    }
    r
}

/// What a restored stack gets (see `spec_stack_view`); `agent_prefixes` are
/// the address prefixes of the agent kinds, in order.
pub fn stack_view_for(url: &str, has_browser: bool, pages: &PageUrls, agent_prefixes: &Vec<String>) -> (v:
    StackView)
    ensures
        v.kind() == spec_stack_view(
            url@,
            has_browser,
            pages.services@,
            pages.terminal@,
            pages.spaces@,
            pages.settings@,
            agent_prefixes@.map_values(|p: String| p@),
        ),
{
    let ghost agents = agent_prefixes@.map_values(|p: String| p@);
    proof {
        lemma_first_agent(url@, agents, 0);
    }
    let cs = chars_of(url);
    if cs.len() == 0 {
        return StackView::Remove;
    }
    if has_browser {
        return StackView::Keep;
    }
    if url_starts_with(&cs, &trimmed_page(pages.services.as_str())) {
        return StackView::ProcessesMonitor;
    }
    if url_starts_with(&cs, &trimmed_page(pages.terminal.as_str())) {
        return StackView::Terminal;
    }
    let mut k: usize = 0;
    while k < agent_prefixes.len()
        invariant
            k <= agent_prefixes@.len(),
            agents == agent_prefixes@.map_values(|p: String| p@),
            cs@ == url@,
            first_agent(url@, agents, 0) == first_agent(url@, agents, k as int),
            url@.len() > 0,
            !has_browser,
            !starts_with(url@, trim_end_slashes(pages.services@)),
            !starts_with(url@, trim_end_slashes(pages.terminal@)),
        decreases agent_prefixes@.len() - k,
    {
        let p = chars_of(agent_prefixes[k].as_str());
        if url_starts_with(&cs, &p) {
            proof {
                assert(agents[k as int] == p@);
                assert(first_agent(url@, agents, k as int) == Some(k as int));
            }
            let rest = url.substring_char(p.len(), cs.len());
            proof {
                assert(rest@ == url@.subrange(agents[k as int].len() as int, url@.len() as int));
            }
            let session_id = if rest.is_empty() {
                None
            } else {
                Some(rest.to_owned())
            };
            return StackView::Agent { kind: k, session_id };
        }
        proof {
            assert(agents[k as int] == p@);
        }
        k = k + 1;
    }
    if url_starts_with(&cs, &trimmed_page(pages.spaces.as_str())) {
        return StackView::Spaces;
    }
    if url_starts_with(&cs, &trimmed_page(pages.settings.as_str())) {
        return StackView::Settings;
    }
    StackView::Browser
}

/// `s` without the '/' characters at its end (see `trim_end_slashes`).
pub fn trim_end_slashes_str(s: &str) -> (t: &str)
    ensures
        t@ == trim_end_slashes(s@),
{
    let cs = chars_of(s);
    let mut n = cs.len();
    proof {
        assert(cs@.subrange(0, n as int) =~= s@);
    }
    while n > 0 && cs[n - 1] == '/'
        invariant
            n <= cs@.len(),
            cs@ == s@,
            trim_end_slashes(cs@.subrange(0, n as int)) == trim_end_slashes(s@),
        decreases n,
    {
        proof {
            assert(cs@.subrange(0, n as int).drop_last() =~= cs@.subrange(0, n - 1));
        }
        n = n - 1;
    }
    proof {
        assert(cs@.subrange(0, cs@.len() as int) =~= s@);
    }
    s.substring_char(0, n)
}

/// Whether an agent address (without trailing '/') in a saved store is
/// stale: the bare agent root and the bare address of an agent kind are
/// not; any other is stale when it does not read as an agent address
/// (`parses` tells whether it does).
pub open spec fn spec_stale_agent_url(normalized: Seq<char>, bare_kinds: Seq<Seq<char>>, parses: bool) -> bool {
    normalized != "vmux://agent"@ && !(exists|k: int|
        0 <= k < bare_kinds.len() && normalized == trim_end_slashes(#[trigger] bare_kinds[k]))
        && !parses
}

/// Whether an agent address in a saved store is stale (see
/// `spec_stale_agent_url`); `bare_kind_prefixes` are the agent kinds'
/// address prefixes.
pub fn stale_agent_url(normalized: &str, bare_kind_prefixes: &Vec<String>, parses: bool) -> (r: bool)
    ensures
        r == spec_stale_agent_url(
            normalized@,
            bare_kind_prefixes@.map_values(|p: String| p@),
            parses,
        ),
{
    let ghost kinds = bare_kind_prefixes@.map_values(|p: String| p@);
    if str_eq(normalized, "vmux://agent") {
        return false;
    }
    let mut k: usize = 0;
    while k < bare_kind_prefixes.len()
        invariant
            k <= bare_kind_prefixes@.len(),
            kinds == bare_kind_prefixes@.map_values(|p: String| p@),
            forall|j: int| 0 <= j < k ==> normalized@ != trim_end_slashes(#[trigger] kinds[j]),
        decreases bare_kind_prefixes@.len() - k,
    {
        let bare = trim_end_slashes_str(bare_kind_prefixes[k].as_str());
        if str_eq(normalized, bare) {
            assert(normalized@ == trim_end_slashes(kinds[k as int]));
            return false;
        }
        k = k + 1;
    }
    !parses
}

} // verus!
