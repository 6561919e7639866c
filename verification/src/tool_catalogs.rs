//! Inventories of the language tools and ACP agents the shell installs for
//! itself: what was installed (its receipts) held against the catalogs it
//! installs from.
use crate::sorting::names_view;
use crate::text::{chars_of, range_starts_with, starts_with, str_eq};
use crate::tools::{contains_name, InventoryItem, ToolStatus};
use vstd::prelude::*;
use vstd::string::*;

verus! {

/// The record the shell keeps of a tool it installed.
#[derive(Clone, Debug)]
pub struct Receipt {
    pub name: String,
    pub version: Option<String>,
    /// Where it came from, such as `acp:` and the agent's id.
    pub source_id: String,
}

/// A language tool of the catalog.
#[derive(Clone, Debug)]
pub struct LspPackage {
    pub name: String,
    pub description: String,
    /// The version its source names, if it names one.
    pub latest: Option<String>,
    /// Whether one of its commands is found on the `PATH`.
    pub on_path: bool,
}

/// An agent of the ACP registry.
#[derive(Clone, Debug)]
pub struct AcpAgent {
    pub id: String,
    pub name: String,
    pub version: Option<String>,
    pub description: Option<String>,
}

/// An optional string as an optional mathematical string.
pub open spec fn opt_view(o: Option<String>) -> Option<Seq<char>> {
    match o {
        Some(s) => Some(s@),
        None => None,
    }
}

/// Whether an installed version is behind the latest one: both are known
/// and differ.
pub open spec fn is_behind(version: Option<Seq<char>>, latest: Option<Seq<char>>) -> bool {
    version is Some && latest is Some && version != latest
}

/// The status of an installed tool.
pub open spec fn installed_status(version: Option<Seq<char>>, latest: Option<Seq<char>>) -> ToolStatus {
    if is_behind(version, latest) {
        ToolStatus::Outdated
    } else {
        ToolStatus::Installed
    }
}

/// The position of the last catalog tool of that name (a catalog read into
/// a map by name keeps the last).
pub open spec fn last_lsp(catalog: Seq<LspPackage>, name: Seq<char>) -> Option<int>
    decreases catalog.len(),
{
    if catalog.len() == 0 {
        None
    } else if catalog.last().name@ == name {
        Some(catalog.len() - 1)
    } else {
        last_lsp(catalog.drop_last(), name)
    }
}

/// The position of the last agent with that id.
pub open spec fn last_acp(catalog: Seq<AcpAgent>, id: Seq<char>) -> Option<int>
    decreases catalog.len(),
{
    if catalog.len() == 0 {
        None
    } else if catalog.last().id@ == id {
        Some(catalog.len() - 1)
    } else {
        last_acp(catalog.drop_last(), id)
    }
}

proof fn lemma_last_lsp(catalog: Seq<LspPackage>, name: Seq<char>)
    ensures
        last_lsp(catalog, name) matches Some(k) ==> 0 <= k < catalog.len() && catalog[k].name@ == name,
    decreases catalog.len(),
{
    if catalog.len() > 0 {
        lemma_last_lsp(catalog.drop_last(), name);
    }
}

proof fn lemma_last_acp(catalog: Seq<AcpAgent>, id: Seq<char>)
    ensures
        last_acp(catalog, id) matches Some(k) ==> 0 <= k < catalog.len() && catalog[k].id@ == id,
    decreases catalog.len(),
{
    if catalog.len() > 0 {
        lemma_last_acp(catalog.drop_last(), id);
    }
}

/// The item of an installed language tool: named by its receipt, described
/// by its catalog entry when that has a description, outdated when the
/// catalog names a newer version; it can be uninstalled.
pub open spec fn lsp_receipt_item_ok(item: InventoryItem, r: Receipt, pkg: Option<LspPackage>) -> bool {
    let latest = match pkg {
        Some(p) => opt_view(p.latest),
        None => None,
    };
    &&& item.id@ == r.name@
    &&& item.name@ == r.name@
    &&& opt_view(item.version) == opt_view(r.version)
    &&& item.detail@ == match pkg {
        Some(p) => if p.description@.len() > 0 {
            p.description@
        } else {
            "Vmux-managed language tool"@
        },
        None => "Vmux-managed language tool"@,
    }
    &&& item.status == installed_status(opt_view(r.version), latest)
    &&& item.removable
}

/// The item of a catalog tool that was not installed but is on the `PATH`:
/// it counts as installed and cannot be uninstalled from here.
pub open spec fn lsp_path_item_ok(item: InventoryItem, p: LspPackage) -> bool {
    &&& item.id@ == p.name@
    &&& item.name@ == p.name@
    &&& item.version is None
    &&& item.detail@ == "Available on PATH"@
    &&& item.status == ToolStatus::Installed
    &&& !item.removable
}

/// The catalog tools, in catalog order, that no receipt names and that are
/// on the `PATH`.
pub open spec fn path_packages(catalog: Seq<LspPackage>, receipt_names: Seq<Seq<char>>) -> Seq<LspPackage>
    decreases catalog.len(),
{
    if catalog.len() == 0 {
        Seq::empty()
    } else {
        let rest = path_packages(catalog.drop_last(), receipt_names);
        let p = catalog.last();
        if !receipt_names.contains(p.name@) && p.on_path {
            rest.push(p)
        } else {
            rest
        }
    }
}

/// The names of the receipts.
pub open spec fn receipt_names(rs: Seq<Receipt>) -> Seq<Seq<char>> {
    rs.map_values(|r: Receipt| r.name@)
}

fn find_last_lsp(catalog: &Vec<LspPackage>, name: &str) -> (r: Option<usize>)
    ensures
        r matches Some(k) ==> last_lsp(catalog@, name@) == Some(k as int),
        r is None ==> last_lsp(catalog@, name@) is None,
{
    let mut found: Option<usize> = None;
    let mut i: usize = 0;
    while i < catalog.len()
        invariant
            i <= catalog@.len(),
            found matches Some(k) ==> last_lsp(catalog@.subrange(0, i as int), name@) == Some(k as int),
            found is None ==> last_lsp(catalog@.subrange(0, i as int), name@) is None,
        decreases catalog@.len() - i,
    {
        assert(catalog@.subrange(0, i as int + 1).drop_last() =~= catalog@.subrange(0, i as int));
        if str_eq(catalog[i].name.as_str(), name) {
            found = Some(i);
        }
        i = i + 1;
    }
    assert(catalog@.subrange(0, catalog@.len() as int) =~= catalog@);
    found
}

fn find_last_acp(catalog: &Vec<AcpAgent>, id: &str) -> (r: Option<usize>)
    ensures
        r matches Some(k) ==> last_acp(catalog@, id@) == Some(k as int),
        r is None ==> last_acp(catalog@, id@) is None,
{
    let mut found: Option<usize> = None;
    let mut i: usize = 0;
    while i < catalog.len()
        invariant
            i <= catalog@.len(),
            found matches Some(k) ==> last_acp(catalog@.subrange(0, i as int), id@) == Some(k as int),
            found is None ==> last_acp(catalog@.subrange(0, i as int), id@) is None,
        decreases catalog@.len() - i,
    {
        assert(catalog@.subrange(0, i as int + 1).drop_last() =~= catalog@.subrange(0, i as int));
        if str_eq(catalog[i].id.as_str(), id) {
            found = Some(i);
        }
        i = i + 1;
    }
    assert(catalog@.subrange(0, catalog@.len() as int) =~= catalog@);
    found
}

fn clone_opt(o: &Option<String>) -> (r: Option<String>)
    ensures
        opt_view(r) == opt_view(*o),
{
    match o {
        Some(s) => Some(s.clone()),
        None => None,
    }
}

fn opt_eq(a: &Option<String>, b: &Option<String>) -> (r: bool)
    ensures
        r == (opt_view(*a) == opt_view(*b)),
{
    match (a, b) {
        (Some(x), Some(y)) => str_eq(x.as_str(), y.as_str()),
        (None, None) => true,
        _ => false,
    }
}

fn status_of(version: &Option<String>, latest: &Option<String>) -> (s: ToolStatus)
    ensures
        s == installed_status(opt_view(*version), opt_view(*latest)),
{
    if version.is_some() && latest.is_some() && !opt_eq(version, latest) {
        ToolStatus::Outdated
    } else {
        ToolStatus::Installed
    }
}

/// The catalog entry of a receipt's tool (the last of that name).
pub open spec fn lsp_entry(catalog: Seq<LspPackage>, name: Seq<char>) -> Option<LspPackage> {
    match last_lsp(catalog, name) {
        Some(k) => Some(catalog[k]),
        None => None,
    }
}

/// The language tools: one item per receipt, in receipt order (see
/// `lsp_receipt_item_ok`), then one per catalog tool that no receipt names
/// and that is on the `PATH`, in catalog order (see `lsp_path_item_ok`).
pub fn lsp_inventory(receipts: &Vec<Receipt>, catalog: &Vec<LspPackage>) -> (items: Vec<InventoryItem>)
    ensures
        items@.len() == receipts@.len() + path_packages(catalog@, receipt_names(receipts@)).len(),
        forall|i: int|
            0 <= i < receipts@.len() ==> lsp_receipt_item_ok(
                #[trigger] items@[i],
                receipts@[i],
                lsp_entry(catalog@, receipts@[i].name@),
            ),
        forall|i: int|
            receipts@.len() <= i < items@.len() ==> lsp_path_item_ok(
                #[trigger] items@[i],
                path_packages(catalog@, receipt_names(receipts@))[i - receipts@.len()],
            ),
{
    let mut items: Vec<InventoryItem> = Vec::new();
    let mut names: Vec<String> = Vec::new();
    let mut i: usize = 0;
    while i < receipts.len()
        invariant
            i <= receipts@.len(),
            items@.len() == i,
            names_view(names@) == receipt_names(receipts@.subrange(0, i as int)),
            forall|q: int|
                0 <= q < i ==> lsp_receipt_item_ok(
                    #[trigger] items@[q],
                    receipts@[q],
                    lsp_entry(catalog@, receipts@[q].name@),
                ),
        decreases receipts@.len() - i,
    {
        let r = &receipts[i];
        let found = find_last_lsp(catalog, r.name.as_str());
        proof {
            lemma_last_lsp(catalog@, r.name@);
        }
        let (detail, latest) = match found {
            Some(k) => {
                let d = if catalog[k].description.as_str().is_empty() {
                    "Vmux-managed language tool".to_owned()
                } else {
                    catalog[k].description.clone()
                };
                (d, clone_opt(&catalog[k].latest))
            },
            None => ("Vmux-managed language tool".to_owned(), None),
        };
        let status = status_of(&r.version, &latest);
        items.push(
            InventoryItem {
                id: r.name.clone(),
                name: r.name.clone(),
                version: clone_opt(&r.version),
                detail,
                status,
                removable: true,
            },
        );
        names.push(r.name.clone());
        proof {
            assert(receipt_names(receipts@.subrange(0, i as int + 1)) =~= receipt_names(
                receipts@.subrange(0, i as int),
            ).push(receipts@[i as int].name@));
            assert(names_view(names@) =~= receipt_names(receipts@.subrange(0, i as int + 1)));
        }
        i = i + 1;
    }
    assert(receipts@.subrange(0, receipts@.len() as int) =~= receipts@);
    let ghost rn = receipt_names(receipts@);
    let ghost n0 = receipts@.len();
    let mut j: usize = 0;
    while j < catalog.len()
        invariant
            j <= catalog@.len(),
            n0 == receipts@.len(),
            names_view(names@) == rn,
            items@.len() == n0 + path_packages(catalog@.subrange(0, j as int), rn).len(),
            forall|q: int|
                0 <= q < n0 ==> lsp_receipt_item_ok(
                    #[trigger] items@[q],
                    receipts@[q],
                    lsp_entry(catalog@, receipts@[q].name@),
                ),
            forall|q: int|
                n0 <= q < items@.len() ==> lsp_path_item_ok(
                    #[trigger] items@[q],
                    path_packages(catalog@.subrange(0, j as int), rn)[q - n0],
                ),
        decreases catalog@.len() - j,
    {
        let p = &catalog[j];
        let ghost before = path_packages(catalog@.subrange(0, j as int), rn);
        assert(catalog@.subrange(0, j as int + 1).drop_last() =~= catalog@.subrange(0, j as int));
        if !contains_name(&names, p.name.as_str()) && p.on_path {
            items.push(
                InventoryItem {
                    id: p.name.clone(),
                    name: p.name.clone(),
                    version: None,
                    detail: "Available on PATH".to_owned(),
                    status: ToolStatus::Installed,
                    removable: false,
                },
            );
            assert(path_packages(catalog@.subrange(0, j as int + 1), rn) == before.push(*p));
        } else {
            assert(path_packages(catalog@.subrange(0, j as int + 1), rn) == before);
        }
        j = j + 1;
    }
    assert(catalog@.subrange(0, catalog@.len() as int) =~= catalog@);
    items
}

/// Whether a receipt is of an ACP agent.
pub open spec fn is_acp(r: Receipt) -> bool {
    starts_with(r.source_id@, "acp:"@)
}

/// The receipts of ACP agents, in order.
pub open spec fn acp_receipts(rs: Seq<Receipt>) -> Seq<Receipt>
    decreases rs.len(),
{
    if rs.len() == 0 {
        Seq::empty()
    } else if is_acp(rs.last()) {
        acp_receipts(rs.drop_last()).push(rs.last())
    } else {
        acp_receipts(rs.drop_last())
    }
}

/// The registry entry of an installed agent (the last with its id).
pub open spec fn acp_entry(catalog: Seq<AcpAgent>, id: Seq<char>) -> Option<AcpAgent> {
    match last_acp(catalog, id) {
        Some(k) => Some(catalog[k]),
        None => None,
    }
}

/// The item of an installed ACP agent: its id from the receipt, its name
/// and description from the registry when it lists the agent, outdated when
/// the registry names a newer version; it can be uninstalled.
pub open spec fn acp_item_ok(item: InventoryItem, r: Receipt, agent: Option<AcpAgent>) -> bool {
    &&& item.id@ == r.name@
    &&& item.name@ == match agent {
        Some(a) => a.name@,
        None => r.name@,
    }
    &&& opt_view(item.version) == opt_view(r.version)
    &&& item.detail@ == match agent {
        Some(a) => match a.description {
            Some(d) => d@,
            None => "ACP agent"@,
        },
        None => "ACP agent"@,
    }
    &&& item.status == installed_status(
        opt_view(r.version),
        match agent {
            Some(a) => opt_view(a.version),
            None => None,
        },
    )
    &&& item.removable
}

/// The installed ACP agents: one item per receipt whose source is `acp:`,
/// in receipt order (see `acp_item_ok`).
pub fn acp_inventory(receipts: &Vec<Receipt>, catalog: &Vec<AcpAgent>) -> (items: Vec<InventoryItem>)
    ensures
        items@.len() == acp_receipts(receipts@).len(),
        forall|i: int|
            0 <= i < items@.len() ==> acp_item_ok(
                #[trigger] items@[i],
                acp_receipts(receipts@)[i],
                acp_entry(catalog@, acp_receipts(receipts@)[i].name@),
            ),
{
    let prefix = chars_of("acp:");
    let mut items: Vec<InventoryItem> = Vec::new();
    let mut i: usize = 0;
    while i < receipts.len()
        invariant
            i <= receipts@.len(),
            prefix@ == "acp:"@,
            items@.len() == acp_receipts(receipts@.subrange(0, i as int)).len(),
            forall|q: int|
                0 <= q < items@.len() ==> acp_item_ok(
                    #[trigger] items@[q],
                    acp_receipts(receipts@.subrange(0, i as int))[q],
                    acp_entry(catalog@, acp_receipts(receipts@.subrange(0, i as int))[q].name@),
                ),
        decreases receipts@.len() - i,
    {
        let r = &receipts[i];
        let ghost before = acp_receipts(receipts@.subrange(0, i as int));
        assert(receipts@.subrange(0, i as int + 1).drop_last() =~= receipts@.subrange(0, i as int));
        let source = chars_of(r.source_id.as_str());
        if range_starts_with(&source, 0, source.len(), &prefix) {
            assert(source@.subrange(0, source@.len() as int) =~= source@);
            let found = find_last_acp(catalog, r.name.as_str());
            proof {
                lemma_last_acp(catalog@, r.name@);
            }
            let (name, detail, latest) = match found {
                Some(k) => {
                    let d = match &catalog[k].description {
                        Some(d) => d.clone(),
                        None => "ACP agent".to_owned(),
                    };
                    (catalog[k].name.clone(), d, clone_opt(&catalog[k].version))
                },
                None => (r.name.clone(), "ACP agent".to_owned(), None),
            };
            let status = status_of(&r.version, &latest);
            items.push(
                InventoryItem {
                    id: r.name.clone(),
                    name,
                    version: clone_opt(&r.version),
                    detail,
                    status,
                    removable: true,
                },
            );
            assert(acp_receipts(receipts@.subrange(0, i as int + 1)) == before.push(*r));
        } else {
            assert(source@.subrange(0, source@.len() as int) =~= source@);
            assert(acp_receipts(receipts@.subrange(0, i as int + 1)) == before);
        }
        i = i + 1;
    }
    assert(receipts@.subrange(0, receipts@.len() as int) =~= receipts@);
    items
}

} // verus!
