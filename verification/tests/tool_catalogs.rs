use vmux_desktop::tool_catalogs::{acp_inventory, lsp_inventory, AcpAgent, LspPackage, Receipt};
use vmux_desktop::tools::ToolStatus;

fn receipt(name: &str, version: Option<&str>, source: &str) -> Receipt {
    Receipt {
        name: name.to_string(),
        version: version.map(|v| v.to_string()),
        source_id: source.to_string(),
    }
}

fn package(name: &str, description: &str, latest: Option<&str>, on_path: bool) -> LspPackage {
    LspPackage {
        name: name.to_string(),
        description: description.to_string(),
        latest: latest.map(|v| v.to_string()),
        on_path,
    }
}

#[test]
fn language_tools_list_receipts_then_tools_on_path() {
    let receipts = vec![
        receipt("rust-analyzer", Some("1.0"), "pkg:github/rust-lang/rust-analyzer@1.0"),
        receipt("taplo", Some("0.9"), "pkg:cargo/taplo@0.9"),
        receipt("zls", None, "pkg:github/zigtools/zls"),
    ];
    let catalog = vec![
        package("rust-analyzer", "Rust language server", Some("1.1"), false),
        package("taplo", "", Some("0.9"), true),
        package("gopls", "Go language server", None, true),
        package("pyright", "Python", None, false),
    ];
    let items = lsp_inventory(&receipts, &catalog);
    assert_eq!(items.len(), 4);

    assert_eq!(items[0].id, "rust-analyzer");
    assert_eq!(items[0].detail, "Rust language server");
    assert_eq!(items[0].status, ToolStatus::Outdated);
    assert!(items[0].removable);

    // An empty description falls back; the same version is up to date.
    assert_eq!(items[1].detail, "Vmux-managed language tool");
    assert_eq!(items[1].status, ToolStatus::Installed);

    // Not in the catalog, no version: installed.
    assert_eq!(items[2].detail, "Vmux-managed language tool");
    assert_eq!(items[2].status, ToolStatus::Installed);
    assert_eq!(items[2].version, None);

    // Found on PATH, not installed by the shell: listed, not removable.
    assert_eq!(items[3].id, "gopls");
    assert_eq!(items[3].detail, "Available on PATH");
    assert_eq!(items[3].status, ToolStatus::Installed);
    assert!(!items[3].removable);
    assert_eq!(items[3].version, None);
}

#[test]
fn language_tool_takes_the_last_catalog_entry_of_its_name() {
    let receipts = vec![receipt("lua-ls", Some("3.0"), "pkg:github/luals/lua-language-server@3.0")];
    let catalog = vec![
        package("lua-ls", "old", Some("2.0"), false),
        package("lua-ls", "new", Some("3.0"), false),
    ];
    let items = lsp_inventory(&receipts, &catalog);
    assert_eq!(items.len(), 1);
    assert_eq!(items[0].detail, "new");
    assert_eq!(items[0].status, ToolStatus::Installed);
}

#[test]
fn acp_agents_come_from_acp_receipts_only() {
    let receipts = vec![
        receipt("gemini", Some("0.1"), "acp:gemini"),
        receipt("rust-analyzer", Some("1.0"), "pkg:github/rust-lang/rust-analyzer@1.0"),
        receipt("local-agent", None, "acp:local-agent"),
    ];
    let catalog = vec![AcpAgent {
        id: "gemini".to_string(),
        name: "Gemini CLI".to_string(),
        version: Some("0.2".to_string()),
        description: Some("Google's agent".to_string()),
    }];
    let items = acp_inventory(&receipts, &catalog);
    assert_eq!(items.len(), 2);

    assert_eq!(items[0].id, "gemini");
    assert_eq!(items[0].name, "Gemini CLI");
    assert_eq!(items[0].detail, "Google's agent");
    assert_eq!(items[0].status, ToolStatus::Outdated);
    assert_eq!(items[0].version.as_deref(), Some("0.1"));
    assert!(items[0].removable);

    assert_eq!(items[1].id, "local-agent");
    assert_eq!(items[1].name, "local-agent");
    assert_eq!(items[1].detail, "ACP agent");
    assert_eq!(items[1].status, ToolStatus::Installed);
}

#[test]
fn acp_agent_without_description_or_registry_is_plain() {
    let receipts = vec![receipt("a", Some("1"), "acp:a")];
    let catalog = vec![AcpAgent {
        id: "a".to_string(),
        name: "Agent A".to_string(),
        version: None,
        description: None,
    }];
    let items = acp_inventory(&receipts, &catalog);
    assert_eq!(items[0].name, "Agent A");
    assert_eq!(items[0].detail, "ACP agent");
    assert_eq!(items[0].status, ToolStatus::Installed);
    assert!(acp_inventory(&receipts, &Vec::new())[0].name == "a");
    assert!(acp_inventory(&Vec::new(), &catalog).is_empty());
}
