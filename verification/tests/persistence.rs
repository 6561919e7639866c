use vmux_desktop::persistence::{
    agent_urls_in, page_metadata_urls, sort_tabs_by_order, space_is_prompt_only_empty_url,
    stack_view_for, stale_agent_url, store_body_with_key, trim_end_slashes_str, PageUrls,
    StackView,
};

const PROMPT_ONLY: &str = r#"
(
  resources: {},
  entities: {
    1: (
      components: {
        "vmux_desktop::layout::stack::Stack": (
          scroll_x: 0.0,
          scroll_y: 0.0,
        ),
        "vmux_header::system::PageMetadata": (
          title: "",
          url: "",
          icon: None,
          bg_color: None,
        ),
      },
    ),
  },
)
"#;

#[test]
fn sort_tabs_orders_by_order_field() {
    let input = vec![(10, Some(2u32), Some(100i64)), (11, Some(0), Some(200)), (12, Some(1), Some(50))];
    assert_eq!(sort_tabs_by_order(input), vec![11, 12, 10]);
}

#[test]
fn sort_tabs_legacy_falls_back_to_created_at() {
    let input = vec![(10, None, Some(2i64)), (11, None, Some(3)), (12, None, Some(1))];
    assert_eq!(sort_tabs_by_order(input), vec![12, 10, 11]);
}

#[test]
fn sort_tabs_ordered_before_unordered() {
    let input = vec![(2, None, Some(0i64)), (1, Some(5u32), Some(999))];
    assert_eq!(sort_tabs_by_order(input), vec![1, 2]);
}

#[test]
fn sort_tabs_keeps_ties_in_input_order() {
    let input = vec![(3, Some(1u32), None), (1, Some(1), None), (2, Some(0), None)];
    assert_eq!(sort_tabs_by_order(input), vec![2, 3, 1]);
}

#[test]
fn current_page_agent_url_does_not_mark_space_stale() {
    let body = r#"url: "vmux://agent/echo/echo/edb5335d-20cf-4c3d-9433-8619c405a0f2""#;
    assert_eq!(
        agent_urls_in(body),
        vec!["vmux://agent/echo/echo/edb5335d-20cf-4c3d-9433-8619c405a0f2".to_string()]
    );
}

#[test]
fn known_cli_agent_url_does_not_mark_space_stale() {
    let body = r#"url: "vmux://agent/codex/edb5335d-20cf-4c3d-9433-8619c405a0f2""#;
    assert_eq!(agent_urls_in(body), vec!["vmux://agent/codex/edb5335d-20cf-4c3d-9433-8619c405a0f2".to_string()]);
}

#[test]
fn bare_cli_agent_url_does_not_mark_space_stale() {
    assert_eq!(agent_urls_in(r#"url: "vmux://agent/vibe/""#), vec!["vmux://agent/vibe/".to_string()]);
}

#[test]
fn agent_urls_collected_in_order() {
    let body = "a \"vmux://agent/x/1\" b \"vmux://agent/y\" c";
    assert_eq!(agent_urls_in(body), vec!["vmux://agent/x/1".to_string(), "vmux://agent/y".to_string()]);
    assert!(agent_urls_in("no agents here").is_empty());
}

#[test]
fn prompt_only_empty_url_space_is_removed_before_load() {
    assert_eq!(page_metadata_urls(PROMPT_ONLY), vec![String::new()]);
    assert!(space_is_prompt_only_empty_url(PROMPT_ONLY));
}

#[test]
fn current_page_agent_space_file_is_not_removed_before_load() {
    assert!(!space_is_prompt_only_empty_url(
        r#"url: "vmux://agent/echo/echo/edb5335d-20cf-4c3d-9433-8619c405a0f2""#
    ));
    let with_page = PROMPT_ONLY.replace("url: \"\"", "url: \"https://example.com\"");
    assert_eq!(page_metadata_urls(&with_page), vec!["https://example.com".to_string()]);
    assert!(!space_is_prompt_only_empty_url(&with_page));
}

#[test]
fn store_body_names_component_key() {
    let body = store_body_with_key("vmux::Thing");
    assert!(body.contains("\"vmux::Thing\": ()"));
    assert!(body.starts_with("(\n  resources: {},"));
}

fn pages() -> PageUrls {
    PageUrls {
        services: "vmux://services/".to_string(),
        terminal: "vmux://terminal/".to_string(),
        spaces: "vmux://spaces/".to_string(),
        settings: "vmux://settings/".to_string(),
    }
}

#[test]
fn restored_stack_views_follow_page_address() {
    let agents = vec!["vmux://agent/codex/".to_string(), "vmux://agent/vibe/".to_string()];
    let p = pages();
    assert_eq!(stack_view_for("", false, &p, &agents), StackView::Remove);
    assert_eq!(stack_view_for("https://x", true, &p, &agents), StackView::Keep);
    assert_eq!(stack_view_for("vmux://services", false, &p, &agents), StackView::ProcessesMonitor);
    assert_eq!(stack_view_for("vmux://terminal/abc", false, &p, &agents), StackView::Terminal);
    assert_eq!(
        stack_view_for("vmux://agent/vibe/s-1", false, &p, &agents),
        StackView::Agent { kind: 1, session_id: Some("s-1".to_string()) }
    );
    assert_eq!(
        stack_view_for("vmux://agent/codex/", false, &p, &agents),
        StackView::Agent { kind: 0, session_id: None }
    );
    assert_eq!(stack_view_for("vmux://spaces/", false, &p, &agents), StackView::Spaces);
    assert_eq!(stack_view_for("vmux://settings", false, &p, &agents), StackView::Settings);
    assert_eq!(stack_view_for("https://example.com", false, &p, &agents), StackView::Browser);
}

#[test]
fn malformed_agent_url_marks_space_stale() {
    let kinds = vec!["vmux://agent/codex/".to_string(), "vmux://agent/vibe/".to_string()];
    assert_eq!(trim_end_slashes_str("vmux://agent/vibe//"), "vmux://agent/vibe");
    // The bare root and the bare address of a kind are never stale.
    assert!(!stale_agent_url("vmux://agent", &kinds, false));
    assert!(!stale_agent_url("vmux://agent/vibe", &kinds, false));
    // Other addresses are stale exactly when they do not read as agent addresses.
    assert!(!stale_agent_url("vmux://agent/bogus/edb5335d", &kinds, true));
    assert!(stale_agent_url("vmux://agent/a/b/c/d/e", &kinds, false));
}
