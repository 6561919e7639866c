//! The command palette: where its navigate box goes, what its actions ask
//! for, and the tabs it lists.
use crate::decimal::{parse_unsigned_range, spec_parse_unsigned};
use crate::text::{
    chars_of, contains_char, contains_text, find_char_from, first_index_from, str_eq,
    text_contains,
};
use vstd::prelude::*;
use vstd::string::*;

verus! {

/// Where text typed in the palette navigates: text with a scheme as it is,
/// a host-like word (a dot and no space) over https, and anything else to a
/// web search for it.
pub open spec fn spec_navigate_url(v: Seq<char>) -> Seq<char> {
    if contains_text(v, "://"@) {
        v
    } else if v.contains('.') && !v.contains(' ') {
        "https://"@ + v
    } else {
        "https://www.google.com/search?q="@ + v
    }
}

/// The address the palette navigates to already has a scheme, so typing it
/// again goes to the same place.
pub proof fn law_navigate_url_is_stable(v: Seq<char>)
    ensures
        spec_navigate_url(spec_navigate_url(v)) == spec_navigate_url(v),
{
    reveal_strlit("://");
    reveal_strlit("https://");
    reveal_strlit("https://www.google.com/search?q=");
    let u = spec_navigate_url(v);
    if !contains_text(v, "://"@) {
        assert(u.subrange(5, 8) =~= "://"@);
        assert(crate::text::matches_at(u, "://"@, 5));
    }
}

/// Where text typed in the palette navigates (see `spec_navigate_url`).
pub fn navigate_url(value: &str) -> (url: String)
    ensures
        url@ == spec_navigate_url(value@),
{
    let cs = chars_of(value);
    let scheme = chars_of("://");
    proof {
        reveal_strlit("://");
    }
    if text_contains(&cs, &scheme) {
        value.to_owned()
    } else if contains_char(&cs, '.') && !contains_char(&cs, ' ') {
        "https://".to_owned().concat(value)
    } else {
        "https://www.google.com/search?q=".to_owned().concat(value)
    }
}

/// A `switch_tab` value `pane:index`: the text before the first ':' read as
/// a `u64` and the text after it as a `usize`.
pub open spec fn spec_switch_tab(v: Seq<char>) -> Option<(nat, nat)> {
    let k = first_index_from(v, ':', 0);
    if k >= v.len() {
        None
    } else {
        match (
            spec_parse_unsigned(v.subrange(0, k), u64::MAX as nat),
            spec_parse_unsigned(v.subrange(k + 1, v.len() as int), usize::MAX as nat),
        ) {
            (Some(p), Some(i)) => Some((p, i)),
            _ => None,
        }
    }
}

/// What a palette action asks for.
#[derive(Clone, Debug, PartialEq, Eq)]
pub enum PaletteRequest {
    /// Load `url` in the focused tab.
    Navigate(String),
    /// Issue the command with this id.
    Command(String),
    /// Bring forward the tab at `index` among the tabs of the pane `pane`.
    SwitchTab { pane: u64, index: usize },
    /// Only close the palette.
    Close,
}

/// What the palette's action `action` with the value `value` asks for:
/// `navigate` the address of the value, `command` the command the value
/// names, `switch_tab` the tab the value points at where it reads as one;
/// anything else (such as `dismiss`) only closes the palette, as every
/// action does afterwards.
pub fn palette_request(action: &str, value: &str) -> (r: PaletteRequest)
    ensures
        action@ == "navigate"@ ==> (r matches PaletteRequest::Navigate(u) && u@ == spec_navigate_url(
            value@,
        )),
        action@ == "command"@ ==> (r matches PaletteRequest::Command(c) && c@ == value@),
        action@ == "switch_tab"@ ==> match spec_switch_tab(value@) {
            Some((p, i)) => r == PaletteRequest::SwitchTab { pane: p as u64, index: i as usize },
            None => r == PaletteRequest::Close,
        },
        action@ != "navigate"@ && action@ != "command"@ && action@ != "switch_tab"@ ==> r
            == PaletteRequest::Close,
{
    proof {
        reveal_strlit("navigate");
        reveal_strlit("command");
        reveal_strlit("switch_tab");
        assert("navigate"@.len() == 8 && "command"@.len() == 7 && "switch_tab"@.len() == 10);
    }
    if str_eq(action, "navigate") {
        return PaletteRequest::Navigate(navigate_url(value));
    }
    if str_eq(action, "command") {
        return PaletteRequest::Command(value.to_owned());
    }
    if !str_eq(action, "switch_tab") {
        return PaletteRequest::Close;
    }
    let cs = chars_of(value);
    let k = find_char_from(&cs, ':', 0);
    if k >= cs.len() {
        return PaletteRequest::Close;
    }
    let pane = parse_unsigned_range(&cs, 0, k, u64::MAX);
    let index = parse_unsigned_range(&cs, k + 1, cs.len(), usize::MAX as u64);
    match (pane, index) {
        (Some(p), Some(i)) => PaletteRequest::SwitchTab { pane: p, index: i as usize },
        _ => PaletteRequest::Close,
    }
}

/// A child of a pane as the palette reads it: whether it is a tab, and the
/// title and address of each page in it, in order.
#[derive(Clone, Debug)]
pub struct PaneChild {
    pub is_tab: bool,
    pub pages: Vec<(String, String)>,
}

/// A leaf pane of the active space with its children, in order.
#[derive(Clone, Debug)]
pub struct PaneListing {
    pub pane: u64,
    pub children: Vec<PaneChild>,
}

/// A tab entry of the palette.
#[derive(Clone, Debug, PartialEq, Eq)]
pub struct PaletteTabEntry {
    pub title: String,
    pub url: String,
    pub pane_id: u64,
    pub tab_index: usize,
    pub is_active: bool,
}

/// An entry as a mathematical value.
pub struct EntryView {
    pub title: Seq<char>,
    pub url: Seq<char>,
    pub pane_id: u64,
    pub tab_index: nat,
    pub is_active: bool,
}

impl PaletteTabEntry {
    pub open spec fn view(self) -> EntryView {
        EntryView {
            title: self.title@,
            url: self.url@,
            pane_id: self.pane_id,
            tab_index: self.tab_index as nat,
            is_active: self.is_active,
        }
    }
}

/// The entries as mathematical values.
pub open spec fn entries_view(v: Seq<PaletteTabEntry>) -> Seq<EntryView> {
    v.map_values(|e: PaletteTabEntry| e.view())
}

/// The entries of the pages of one tab.
pub open spec fn page_entries(pages: Seq<(String, String)>, pane: u64, index: nat, active: bool) -> Seq<
    EntryView,
> {
    pages.map_values(
        |p: (String, String)|
            EntryView { title: p.0@, url: p.1@, pane_id: pane, tab_index: index, is_active: active },
    )
}

/// The entries of the children of a pane from child `c` on, whose first
/// tab has the index `index`; a tab is active when it is the `active`-th
/// child of the active pane.
pub open spec fn child_entries(
    children: Seq<PaneChild>,
    pane: u64,
    c: int,
    index: nat,
    active: Option<(u64, int)>,
) -> Seq<EntryView>
    decreases children.len() - c,
{
    if c < 0 || c >= children.len() {
        Seq::empty()
    } else if !children[c].is_tab {
        child_entries(children, pane, c + 1, index, active)
    } else {
        page_entries(children[c].pages@, pane, index, active == Some((pane, c))) + child_entries(
            children,
            pane,
            c + 1,
            index + 1,
            active,
        )
    }
}

/// The palette's tab list: for each pane in turn, each of its tabs
/// numbered among the pane's tabs, and one entry for each page of the tab.
pub open spec fn spec_tab_entries(panes: Seq<PaneListing>, active: Option<(u64, int)>) -> Seq<
    EntryView,
>
    decreases panes.len(),
{
    if panes.len() == 0 {
        Seq::empty()
    } else {
        spec_tab_entries(panes.drop_last(), active) + child_entries(
            panes.last().children@,
            panes.last().pane,
            0,
            0,
            active,
        )
    }
}

fn push_page_entries(
    out: &mut Vec<PaletteTabEntry>,
    pages: &Vec<(String, String)>,
    pane: u64,
    index: usize,
    active: bool,
)
    ensures
        entries_view(final(out)@) == entries_view(old(out)@) + page_entries(
            pages@,
            pane,
            index as nat,
            active,
        ),
{
    let ghost start = entries_view(out@);
    let mut i: usize = 0;
    while i < pages.len()
        invariant
            i <= pages@.len(),
            entries_view(out@) == start + page_entries(
                pages@.subrange(0, i as int),
                pane,
                index as nat,
                active,
            ),
        decreases pages@.len() - i,
    {
        let ghost before = out@;
        let e = PaletteTabEntry {
            title: pages[i].0.clone(),
            url: pages[i].1.clone(),
            pane_id: pane,
            tab_index: index,
            is_active: active,
        };
        out.push(e);
        proof {
            assert(entries_view(out@) =~= entries_view(before).push(out@.last().view()));
            assert(page_entries(pages@.subrange(0, i + 1), pane, index as nat, active) =~= page_entries(
                pages@.subrange(0, i as int),
                pane,
                index as nat,
                active,
            ).push(out@.last().view()));
        }
        i = i + 1;
    }
    proof {
        assert(pages@.subrange(0, pages@.len() as int) =~= pages@);
    }
}

proof fn lemma_child_entries_step(
    children: Seq<PaneChild>,
    pane: u64,
    c: int,
    index: nat,
    active: Option<(u64, int)>,
)
    requires
        0 <= c < children.len(),
    ensures
        child_entries(children, pane, c, index, active) == if !children[c].is_tab {
            child_entries(children, pane, c + 1, index, active)
        } else {
            page_entries(children[c].pages@, pane, index, active == Some((pane, c))) + child_entries(
                children,
                pane,
                c + 1,
                index + 1,
                active,
            )
        },
{
}

/// The palette's tab list (see `spec_tab_entries`): `active` is the active
/// pane and the position of the active tab among its children, where the
/// focused tab lies in a pane of the active space.
pub fn palette_tab_entries(panes: &Vec<PaneListing>, active: Option<(u64, usize)>) -> (entries: Vec<
    PaletteTabEntry,
>)
    ensures
        entries_view(entries@) == spec_tab_entries(
            panes@,
            match active {
                Some((a, t)) => Some((a, t as int)),
                None => None,
            },
        ),
{
    let ghost act = match active {
        Some((a, t)) => Some((a, t as int)),
        None => None,
    };
    let mut out: Vec<PaletteTabEntry> = Vec::new();
    let mut p: usize = 0;
    proof {
        assert(entries_view(out@) =~= Seq::<EntryView>::empty());
        assert(panes@.subrange(0, 0) =~= Seq::<PaneListing>::empty());
    }
    while p < panes.len()
        invariant
            p <= panes@.len(),
            act == match active {
                Some((a, t)) => Some((a, t as int)),
                None => None,
            },
            entries_view(out@) == spec_tab_entries(panes@.subrange(0, p as int), act),
        decreases panes@.len() - p,
    {
        let pane = &panes[p];
        let ghost before = entries_view(out@);
        let ghost kids = pane.children@;
        let mut c: usize = 0;
        let mut index: usize = 0;
        while c < pane.children.len()
            invariant
                c <= kids.len(),
                kids == pane.children@,
                index <= c,
                act == match active {
                    Some((a, t)) => Some((a, t as int)),
                    None => None,
                },
                entries_view(out@) + child_entries(kids, pane.pane, c as int, index as nat, act)
                    == before + child_entries(kids, pane.pane, 0, 0, act),
            decreases kids.len() - c,
        {
            let child = &pane.children[c];
            proof {
                lemma_child_entries_step(kids, pane.pane, c as int, index as nat, act);
            }
            if child.is_tab {
                let is_active = match active {
                    Some((a, t)) => a == pane.pane && t == c,
                    None => false,
                };
                let ghost mid = entries_view(out@);
                push_page_entries(&mut out, &child.pages, pane.pane, index, is_active);
                proof {
                    assert(is_active == (act == Some((pane.pane, c as int))));
                    let ghost pe = page_entries(kids[c as int].pages@, pane.pane, index as nat, is_active);
                    let ghost rest = child_entries(kids, pane.pane, c + 1, (index + 1) as nat, act);
                    assert(mid + (pe + rest) =~= (mid + pe) + rest);
                }
                index = index + 1;
            }
            c = c + 1;
        }
        proof {
            assert(child_entries(kids, pane.pane, c as int, index as nat, act) =~= Seq::<EntryView>::empty());
            assert(entries_view(out@) =~= before + child_entries(kids, pane.pane, 0, 0, act));
            let ghost sub = panes@.subrange(0, p + 1);
            assert(sub.drop_last() =~= panes@.subrange(0, p as int));
            assert(sub.last() == panes@[p as int]);
        }
        p = p + 1;
    }
    proof {
        assert(panes@.subrange(0, panes@.len() as int) =~= panes@);
    }
    out
}

} // verus!
