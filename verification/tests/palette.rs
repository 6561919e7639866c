use vmux_desktop::palette::{
    navigate_url, palette_request, palette_tab_entries, PaletteRequest, PaneChild, PaneListing,
};

fn tab(pages: &[(&str, &str)]) -> PaneChild {
    PaneChild {
        is_tab: true,
        pages: pages.iter().map(|(t, u)| (t.to_string(), u.to_string())).collect(),
    }
}

fn other() -> PaneChild {
    PaneChild { is_tab: false, pages: vec![("header".into(), "vmux://header".into())] }
}

#[test]
fn navigate_keeps_urls_and_completes_hosts() {
    assert_eq!(navigate_url("https://example.com/a"), "https://example.com/a");
    assert_eq!(navigate_url("vmux://terminal"), "vmux://terminal");
    assert_eq!(navigate_url("example.com"), "https://example.com");
}

#[test]
fn navigate_searches_other_text() {
    assert_eq!(navigate_url("rust verus"), "https://www.google.com/search?q=rust verus");
    assert_eq!(navigate_url("a. b"), "https://www.google.com/search?q=a. b");
    assert_eq!(navigate_url("localhost"), "https://www.google.com/search?q=localhost");
}

#[test]
fn palette_actions_map_to_requests() {
    assert_eq!(
        palette_request("navigate", "example.com"),
        PaletteRequest::Navigate("https://example.com".to_string())
    );
    assert_eq!(palette_request("command", "stack_close"), PaletteRequest::Command("stack_close".to_string()));
    assert_eq!(palette_request("switch_tab", "42:3"), PaletteRequest::SwitchTab { pane: 42, index: 3 });
    assert_eq!(palette_request("switch_tab", "42-3"), PaletteRequest::Close);
    assert_eq!(palette_request("switch_tab", "x:3"), PaletteRequest::Close);
    assert_eq!(palette_request("switch_tab", "42:"), PaletteRequest::Close);
    assert_eq!(palette_request("switch_tab", "+7:+0"), PaletteRequest::SwitchTab { pane: 7, index: 0 });
    assert_eq!(palette_request("switch_tab", "18446744073709551616:0"), PaletteRequest::Close);
    assert_eq!(palette_request("dismiss", ""), PaletteRequest::Close);
}

#[test]
fn palette_lists_tabs_by_pane_with_active_marked() {
    let panes = vec![
        PaneListing { pane: 5, children: vec![other(), tab(&[("A", "https://a")]), tab(&[("B", "https://b")])] },
        PaneListing { pane: 6, children: vec![tab(&[("C", "https://c"), ("C2", "https://c2")])] },
    ];
    let entries = palette_tab_entries(&panes, Some((5, 2)));
    let summary: Vec<_> = entries
        .iter()
        .map(|e| (e.title.as_str(), e.pane_id, e.tab_index, e.is_active))
        .collect();
    assert_eq!(
        summary,
        vec![("A", 5, 0, false), ("B", 5, 1, true), ("C", 6, 0, false), ("C2", 6, 0, false)]
    );
    assert_eq!(entries[1].url, "https://b");
    let none = palette_tab_entries(&panes, None);
    assert!(none.iter().all(|e| !e.is_active));
}
