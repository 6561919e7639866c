use vmux_desktop::media_permission::{
    permission_host, MediaPermissionStore, OriginPermissions, PermissionDecision,
    RequestCategories, Resolution,
};

fn cats(camera: bool, microphone: bool, screen: bool) -> RequestCategories {
    RequestCategories { camera, microphone, screen }
}

fn store_with(origin: &str, perms: OriginPermissions) -> MediaPermissionStore {
    let mut store = MediaPermissionStore::default();
    store.insert(origin.to_string(), perms);
    store
}

#[test]
fn unknown_origin_prompts() {
    let store = MediaPermissionStore::default();
    assert_eq!(
        store.decision_for("https://meet.google.com", cats(false, true, false)),
        Resolution::Prompt
    );
}

#[test]
fn all_requested_categories_allowed_grants() {
    let store = store_with(
        "https://meet.google.com",
        OriginPermissions {
            camera: Some(PermissionDecision::Allow),
            microphone: Some(PermissionDecision::Allow),
            screen: None,
        },
    );
    assert_eq!(
        store.decision_for("https://meet.google.com", cats(true, true, false)),
        Resolution::Grant
    );
}

#[test]
fn any_blocked_requested_category_denies() {
    let store = store_with(
        "https://meet.google.com",
        OriginPermissions {
            camera: Some(PermissionDecision::Allow),
            microphone: Some(PermissionDecision::Block),
            screen: None,
        },
    );
    assert_eq!(
        store.decision_for("https://meet.google.com", cats(true, true, false)),
        Resolution::Deny
    );
}

#[test]
fn stored_decision_for_other_category_still_prompts() {
    let store = store_with(
        "https://meet.google.com",
        OriginPermissions {
            camera: Some(PermissionDecision::Allow),
            microphone: None,
            screen: None,
        },
    );
    assert_eq!(
        store.decision_for("https://meet.google.com", cats(true, true, false)),
        Resolution::Prompt
    );
}

#[test]
fn record_sets_only_requested_categories() {
    let mut store = MediaPermissionStore::default();
    store.record("https://meet.google.com", cats(true, true, false), true);
    let entry = store.get("https://meet.google.com").unwrap();
    assert_eq!(entry.camera, Some(PermissionDecision::Allow));
    assert_eq!(entry.microphone, Some(PermissionDecision::Allow));
    assert_eq!(entry.screen, None);
}

#[test]
fn permission_host_strips_scheme_and_path() {
    assert_eq!(permission_host("https://meet.google.com/abc"), "meet.google.com");
    assert_eq!(permission_host("meet.google.com"), "meet.google.com");
}

#[test]
fn recorded_answer_decides_next_request_and_leaves_other_sites() {
    let mut store = MediaPermissionStore::default();
    store.record("https://a.example", cats(false, true, false), false);
    assert_eq!(store.decision_for("https://a.example", cats(false, true, false)), Resolution::Deny);
    assert_eq!(store.decision_for("https://b.example", cats(false, true, false)), Resolution::Prompt);
    store.record("https://b.example", cats(false, false, true), true);
    assert_eq!(store.decision_for("https://a.example", cats(false, true, false)), Resolution::Deny);
    assert_eq!(store.decision_for("https://b.example", cats(false, false, true)), Resolution::Grant);
}

#[test]
fn settle_request_remembers_prompt_answers_only() {
    let mut store = MediaPermissionStore::default();
    assert!(!store.settle_request("https://a.example", cats(true, false, false), None));
    assert!(store.get("https://a.example").is_none());
    assert!(store.settle_request("https://a.example", cats(true, false, false), Some(true)));
    assert_eq!(store.get("https://a.example").unwrap().camera, Some(PermissionDecision::Allow));
    // Remembered now: the answer given no longer matters.
    assert!(store.settle_request("https://a.example", cats(true, false, false), Some(false)));
}

#[test]
fn entries_round_trip_through_from_entries() {
    let mut store = MediaPermissionStore::default();
    store.record("https://a.example", cats(true, false, false), true);
    store.record("https://b.example", cats(false, true, false), false);
    let copy = MediaPermissionStore::from_entries(store.entries());
    assert_eq!(copy.get("https://a.example"), store.get("https://a.example"));
    assert_eq!(copy.get("https://b.example"), store.get("https://b.example"));
}

#[test]
fn prompt_wording_names_requested_categories() {
    assert_eq!(cats(false, false, false).phrase(), "media");
    assert_eq!(cats(true, false, false).phrase(), "camera");
    assert_eq!(cats(true, true, false).phrase(), "camera and microphone");
    assert_eq!(cats(true, true, true).phrase(), "camera, microphone, and screen");
    assert_eq!(cats(false, true, true).symbol(), "mic.fill");
    assert_eq!(cats(true, true, true).symbol(), "video.fill");
    assert_eq!(cats(false, false, true).symbol(), "rectangle.on.rectangle");
}
