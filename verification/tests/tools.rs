use vmux_desktop::settings_path::JsonValue;
use vmux_desktop::sorting::sorted_name_set;
use vmux_desktop::tools::{
    adoptable_servers, build_category, command_error, dotfile_item, homebrew_items,
    import_inventory, join_with,
    mcp_items, npm_inventory, npm_outdated_names, parse_npm_inventory, package_actions, parse_brew_versions, parse_name_lines,
    snapshot_counts, tool_action_message, tool_action_steps, unlink_outcome, DotfilePlan,
    InventoryItem, McpServerFound, PackageManifest, ToolAction, ToolProviderKind, ToolStatus,
    ToolStep, merge_vault_snapshot, VaultRepository, VaultSnapshot,
};

fn item(id: &str, status: ToolStatus) -> InventoryItem {
    InventoryItem {
        id: id.to_string(),
        name: id.to_string(),
        version: Some("1".to_string()),
        detail: String::new(),
        status,
        removable: true,
    }
}

fn obj(members: Vec<(&str, JsonValue)>) -> JsonValue {
    JsonValue::Object(members.into_iter().map(|(k, v)| (k.to_string(), v)).collect())
}

#[test]
fn parses_brew_inventory_with_versions() {
    assert_eq!(
        parse_brew_versions(b"ripgrep 14.1.1\nopenssl@3 3.5.0 3.5.1\n"),
        vec![
            ("ripgrep".to_string(), Some("14.1.1".to_string())),
            ("openssl@3".to_string(), Some("3.5.0 3.5.1".to_string())),
        ]
    );
}

#[test]
fn brew_lines_without_version_and_blank_lines() {
    assert_eq!(
        parse_brew_versions(b"  jq  \n\n  \nfd 9.0\n"),
        vec![("jq".to_string(), None), ("fd".to_string(), Some("9.0".to_string()))]
    );
}

#[test]
fn invalid_utf8_is_replaced_not_rejected() {
    let names = parse_name_lines(b"a\xffb 1\nc\n");
    assert_eq!(names, vec!["a\u{fffd}b".to_string(), "c".to_string()]);
}

#[test]
fn category_adds_declared_missing_packages() {
    let mut manifest = PackageManifest::new();
    manifest.set_package("npm", "typescript", true);
    let category = build_category("npm", Vec::new(), &manifest);
    assert_eq!(category.items.len(), 1);
    assert_eq!(category.items[0].status, ToolStatus::Missing);
    assert!(category.items[0].managed);
    assert_eq!(category.items[0].actions, [ToolAction::Install, ToolAction::Forget]);
}

#[test]
fn category_lists_scanned_then_sorted_by_name() {
    let mut manifest = PackageManifest::new();
    manifest.set_package("brew", "zsh", true);
    let category = build_category(
        "brew",
        vec![item("zsh", ToolStatus::Installed), item("bat", ToolStatus::Outdated)],
        &manifest,
    );
    let ids: Vec<_> = category.items.iter().map(|i| i.id.as_str()).collect();
    assert_eq!(ids, vec!["bat", "zsh"]);
    assert!(category.items[1].managed);
    assert!(!category.items[0].managed);
    assert_eq!(category.items[0].actions, [ToolAction::Adopt, ToolAction::Update, ToolAction::Uninstall]);
}

#[test]
fn parses_scoped_npm_packages_and_outdated_state() {
    let inventory = parse_npm_inventory(
        br#"{"dependencies":{"@scope/tool":{"version":"2.0.0"},"typescript":{"version":"5.9.0"}}}"#,
        &vec!["@scope/tool".to_string()],
    )
    .unwrap();
    assert_eq!(inventory.len(), 2);
    let scoped = inventory.iter().find(|item| item.id == "@scope/tool").unwrap();
    assert_eq!(scoped.version.as_deref(), Some("2.0.0"));
    assert_eq!(scoped.status, ToolStatus::Outdated);
    let ts = inventory.iter().find(|item| item.id == "typescript").unwrap();
    assert_eq!(ts.status, ToolStatus::Installed);
    assert_eq!(ts.detail, "Global npm package");
}

#[test]
fn npm_inventory_rejects_bytes_that_are_no_json() {
    let err = parse_npm_inventory(b"npm ERR! not json", &Vec::new()).unwrap_err();
    assert!(!err.is_empty());
    assert!(parse_npm_inventory(b"", &Vec::new()).is_err());
    // A document without dependencies, or with a non-object there, has none.
    assert!(parse_npm_inventory(b"{}", &Vec::new()).unwrap().is_empty());
    assert!(parse_npm_inventory(br#"{"dependencies":[1]}"#, &Vec::new()).unwrap().is_empty());
    // A version that is not a string is no version.
    let items = parse_npm_inventory(br#"{"dependencies":{"a":{"version":3}}}"#, &Vec::new()).unwrap();
    assert_eq!(items[0].version, None);
}

#[test]
fn npm_outdated_names_are_the_object_members() {
    assert_eq!(
        npm_outdated_names(br#"{"typescript":{"current":"5.8.0"},"eslint":{}}"#),
        vec!["eslint".to_string(), "typescript".to_string()]
    );
    assert!(npm_outdated_names(b"[]").is_empty());
    assert!(npm_outdated_names(b"not json").is_empty());
    assert!(npm_outdated_names(b"").is_empty());
}

#[test]
fn npm_document_without_dependencies_is_empty() {
    assert!(npm_inventory(&obj(vec![]), &Vec::new()).is_empty());
}

#[test]
fn bulk_import_adopts_only_installed_inventory() {
    let mut manifest = PackageManifest::new();
    let imported = import_inventory(
        &mut manifest,
        "npm",
        vec![item("installed", ToolStatus::Installed), item("missing", ToolStatus::Missing)],
    );
    assert_eq!(imported, 1);
    assert!(manifest.contains("npm", "installed"));
    assert!(!manifest.contains("npm", "missing"));
    // Importing again adds nothing new.
    let again = import_inventory(&mut manifest, "npm", vec![item("installed", ToolStatus::Installed)]);
    assert_eq!(again, 0);
}

#[test]
fn unmanaged_installed_packages_can_be_adopted() {
    assert_eq!(package_actions(ToolStatus::Installed, false, true), [ToolAction::Adopt, ToolAction::Uninstall]);
    assert_eq!(package_actions(ToolStatus::Outdated, true, true), [ToolAction::Update, ToolAction::Uninstall]);
}

#[test]
fn manifest_set_and_remove() {
    let mut m = PackageManifest::new();
    m.set_package("brew", "jq", true);
    m.set_package("brew", "jq", true);
    m.set_package("npm", "jq", true);
    assert_eq!(m.managed_package_set("brew"), vec!["jq".to_string()]);
    m.set_package("brew", "jq", false);
    assert!(!m.contains("brew", "jq"));
    assert!(m.contains("npm", "jq"));
}

#[test]
fn command_error_prefers_trimmed_stderr() {
    assert_eq!(command_error("brew", b"  Error: no such formula\n", "exit status: 1"), "Error: no such formula");
    assert_eq!(command_error("brew", b"   \n", "exit status: 1"), "brew exited with exit status: 1");
}

#[test]
fn snapshot_counts_tally_statuses() {
    let mut manifest = PackageManifest::new();
    manifest.set_package("npm", "gone", true);
    let c = build_category(
        "npm",
        vec![item("a", ToolStatus::Installed), item("b", ToolStatus::Outdated), item("c", ToolStatus::Conflict)],
        &manifest,
    );
    assert_eq!(snapshot_counts(&vec![c]), (2, 1, 1));
}

fn found(name: &str, conflict: bool, transport: &str, sources: &[&str]) -> McpServerFound {
    McpServerFound {
        name: name.to_string(),
        conflict,
        transport: transport.to_string(),
        sources: sources.iter().map(|s| s.to_string()).collect(),
    }
}

#[test]
fn mcp_servers_listed_once_in_name_order() {
    let f = vec![
        found("zeta", false, "stdio", &["/etc/app-one.json", "/etc/app-two.json"]),
        found("alpha", true, "http", &["/etc/app-one.json"]),
        found("mid", false, "stdio", &["/c.json"]),
    ];
    let managed = vec![("mid".to_string(), "sse".to_string()), ("own".to_string(), "stdio".to_string())];
    let items = mcp_items(&f, &managed);
    let names: Vec<_> = items.iter().map(|i| i.name.as_str()).collect();
    assert_eq!(names, vec!["alpha", "mid", "own", "zeta"]);
    assert_eq!(items[0].status, ToolStatus::Conflict);
    assert_eq!(items[0].detail, "Conflicting definitions in /etc/app-one.json");
    assert!(items[0].actions.is_empty());
    assert_eq!(items[1].status, ToolStatus::Installed);
    assert_eq!(items[1].detail, "sse · Tools managed · imported from /c.json");
    assert_eq!(items[1].actions, vec![ToolAction::Forget]);
    assert_eq!(items[2].detail, "stdio · Tools managed");
    assert_eq!(items[3].status, ToolStatus::Available);
    assert_eq!(items[3].detail, "stdio · configured in /etc/app-one.json, /etc/app-two.json");
    assert_eq!(items[3].actions, vec![ToolAction::Adopt]);
}

#[test]
fn found_servers_adopted_unless_own_conflicting_or_managed() {
    let f = vec![
        found("vmux", false, "stdio", &[]),
        found("a", true, "stdio", &[]),
        found("b", false, "stdio", &[]),
        found("c", false, "stdio", &[]),
    ];
    assert_eq!(adoptable_servers(&f, &vec!["c".to_string()]), vec![2]);
}

#[test]
fn dotfile_listing_follows_link_plan() {
    let plan = |linked, missing, conflicts| Ok(DotfilePlan { linked, missing, conflicts });
    let i = dotfile_item("zsh", true, plan(3, 0, 0));
    assert_eq!(i.status, ToolStatus::Installed);
    assert_eq!(i.detail, "3 linked · 0 missing · 0 conflicts");
    assert_eq!(i.actions, vec![ToolAction::Link, ToolAction::Unlink]);
    assert_eq!(dotfile_item("git", true, plan(1, 2, 0)).status, ToolStatus::Missing);
    assert_eq!(dotfile_item("git", false, plan(1, 2, 0)).status, ToolStatus::Available);
    assert_eq!(dotfile_item("git", false, plan(1, 2, 0)).actions, vec![ToolAction::Link]);
    assert_eq!(dotfile_item("vim", true, plan(0, 1, 4)).status, ToolStatus::Conflict);
    let e = dotfile_item("tmux", true, Err("no such package".to_string()));
    assert_eq!(e.status, ToolStatus::Missing);
    assert_eq!(e.detail, "no such package");
    assert_eq!(e.actions, vec![ToolAction::Unlink]);
    assert!(dotfile_item("tmux", false, Err("x".to_string())).actions.is_empty());
}

#[test]
fn name_sets_sort_as_strings_and_drop_repeats() {
    let names: Vec<String> = ["b", "a", "B", "b", "ab", "a"].iter().map(|s| s.to_string()).collect();
    assert_eq!(sorted_name_set(&names), vec!["B", "a", "ab", "b"]);
    assert_eq!(join_with(&vec!["x".to_string(), "y".to_string(), "z".to_string()], ", "), "x, y, z");
    assert_eq!(join_with(&vec![], ", "), "");
}

#[test]
fn tool_actions_plan_their_steps() {
    assert_eq!(tool_action_steps(ToolAction::Apply, ToolProviderKind::Package, "", ""), Ok(vec![ToolStep::ApplyManifest]));
    assert_eq!(
        tool_action_steps(ToolAction::Import, ToolProviderKind::Package, "", "  ~/Brewfile "),
        Ok(vec![ToolStep::Import { path: "~/Brewfile".to_string() }])
    );
    assert_eq!(
        tool_action_steps(ToolAction::Install, ToolProviderKind::Package, "  ", ""),
        Err("package name is required".to_string())
    );
    assert_eq!(
        tool_action_steps(ToolAction::Install, ToolProviderKind::Package, "jq", ""),
        Ok(vec![ToolStep::SetManaged(true), ToolStep::Install])
    );
    assert_eq!(
        tool_action_steps(ToolAction::Uninstall, ToolProviderKind::Package, "jq", ""),
        Ok(vec![ToolStep::Uninstall, ToolStep::SetManaged(false)])
    );
    assert_eq!(tool_action_steps(ToolAction::Adopt, ToolProviderKind::Mcp, "srv", ""), Ok(vec![ToolStep::ImportMcpServer]));
    assert_eq!(
        tool_action_steps(ToolAction::Adopt, ToolProviderKind::Dotfiles, " zsh ", ""),
        Err("dotfile path is required".to_string())
    );
    assert_eq!(
        tool_action_steps(ToolAction::Adopt, ToolProviderKind::Dotfiles, " zsh ", " ~/.zshrc"),
        Ok(vec![ToolStep::AdoptDotfile { path: "~/.zshrc".to_string(), name: "zsh".to_string() }])
    );
    assert_eq!(
        tool_action_steps(ToolAction::Link, ToolProviderKind::Package, "jq", ""),
        Err("link is only valid for dotfiles".to_string())
    );
    assert_eq!(
        tool_action_steps(ToolAction::Unlink, ToolProviderKind::Dotfiles, "zsh", ""),
        Ok(vec![ToolStep::UnlinkDotfiles, ToolStep::SetManaged(false)])
    );
}

#[test]
fn tool_action_messages() {
    assert_eq!(tool_action_message(ToolAction::Install, ToolProviderKind::Package, "jq", "", 0), "jq installed");
    assert_eq!(tool_action_message(ToolAction::Forget, ToolProviderKind::Package, "jq", "", 0), "jq removed from tools.toml");
    assert_eq!(tool_action_message(ToolAction::Adopt, ToolProviderKind::Dotfiles, "zsh", "/v/zsh/.zshrc", 0), "adopted /v/zsh/.zshrc");
    assert_eq!(tool_action_message(ToolAction::Adopt, ToolProviderKind::Package, "jq", "", 0), "jq is now managed");
    assert_eq!(tool_action_message(ToolAction::Link, ToolProviderKind::Dotfiles, "zsh", "", 3), "linked 3 file(s)");
    assert_eq!(tool_action_message(ToolAction::Unlink, ToolProviderKind::Dotfiles, "zsh", "", 0), "unlinked 0 file(s)");
    assert_eq!(unlink_outcome(Err("package zsh does not exist".to_string())), Ok(0));
    assert_eq!(unlink_outcome(Err("permission denied".to_string())), Err("permission denied".to_string()));
    assert_eq!(unlink_outcome(Ok(4)), Ok(4));
}

#[test]
fn homebrew_inventory_marks_outdated_and_keeps_own_cask() {
    let entries = vec![
        ("vmux".to_string(), Some("1.2".to_string())),
        ("jq".to_string(), None),
    ];
    let casks = homebrew_items(entries.clone(), &vec!["jq".to_string()], true);
    assert!(!casks[0].removable);
    assert_eq!(casks[0].detail, "Homebrew cask");
    assert_eq!(casks[0].version.as_deref(), Some("1.2"));
    assert_eq!(casks[1].status, ToolStatus::Outdated);
    assert!(casks[1].removable);
    let formulae = homebrew_items(entries, &vec![], false);
    assert!(formulae[0].removable);
    assert_eq!(formulae[0].status, ToolStatus::Installed);
    assert_eq!(formulae[1].detail, "Homebrew formula");
}

fn vault(initialized: bool, remote: &str, owner: &str, repos: &[&str], error: &str) -> VaultSnapshot {
    VaultSnapshot {
        root: "/vault".to_string(),
        initialized,
        remote: remote.to_string(),
        branch: "main".to_string(),
        dirty: 2,
        ahead: 1,
        behind: 0,
        github_owner: owner.to_string(),
        repositories: repos
            .iter()
            .map(|n| VaultRepository {
                name: n.to_string(),
                url: format!("https://example.com/{n}.git"),
                private: true,
                empty: false,
            })
            .collect(),
        error: error.to_string(),
    }
}

#[test]
fn vault_scan_keeps_account_data_until_connected() {
    let previous = vault(true, "", "octo", &["notes"], "offline");

    // Not loading repositories and no remote yet: the account data stays.
    let merged = merge_vault_snapshot(false, vault(true, "", "", &[], ""), previous.clone());
    assert_eq!(merged.github_owner, "octo");
    assert_eq!(merged.repositories.len(), 1);
    assert_eq!(merged.repositories[0].name, "notes");
    assert_eq!(merged.error, "offline");
    assert_eq!(merged.dirty, 2);

    // Not initialized at all: the same.
    let merged = merge_vault_snapshot(false, vault(false, "https://example.com/v.git", "", &[], ""), previous.clone());
    assert_eq!(merged.github_owner, "octo");

    // Connected to a remote: the fresh status wins.
    let merged = merge_vault_snapshot(false, vault(true, "https://example.com/v.git", "", &[], ""), previous.clone());
    assert_eq!(merged.github_owner, "");
    assert!(merged.repositories.is_empty());
    assert_eq!(merged.remote, "https://example.com/v.git");

    // Repositories were loaded: the fresh status wins too.
    let merged = merge_vault_snapshot(true, vault(true, "", "me", &["a", "b"], ""), previous);
    assert_eq!(merged.github_owner, "me");
    assert_eq!(merged.repositories.len(), 2);
    assert_eq!(merged.error, "");
}
