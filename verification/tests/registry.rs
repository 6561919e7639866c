use vmux_desktop::registry::{
    delete_record, emit_targets, initial_record, new_record_name, normalize_registry,
    plan_registry_command, registry_rows, tick_pending_switch, EmitCache, PendingSwitch,
    RegistryCommand, RegistryPlan, RegistryRecord,
};

fn rec(id: &str, name: &str) -> RegistryRecord {
    RegistryRecord { id: id.to_string(), name: name.to_string(), profile: "default".to_string() }
}

fn default_record() -> RegistryRecord {
    rec("default", "Default")
}

fn cmd(command: &str, id: Option<&str>) -> RegistryCommand {
    RegistryCommand { command: command.to_string(), id: id.map(|s| s.to_string()), name: None }
}

#[test]
fn rows_mark_active_session_and_profile() {
    let records = vec![default_record(), rec("work", "Work")];
    let rows = registry_rows(&records, "work", 4);
    assert!(!rows[0].is_active);
    assert!(rows[1].is_active);
    assert_eq!(rows[1].profile, "default");
    assert_eq!(rows[1].count, 4);
    assert_eq!(rows[0].count, 0);
}

#[test]
fn rows_mark_active_space_and_profile() {
    let records = vec![default_record(), rec("docs", "Docs")];
    let rows = registry_rows(&records, "default", 2);
    assert!(rows[0].is_active);
    assert!(!rows[1].is_active);
    assert_eq!(rows[0].count, 2);
    assert_eq!(rows[1].name, "Docs");
}

#[test]
fn unchanged_payload_is_sent_to_new_sessions_view() {
    let mut cache = EmitCache::new();
    assert_eq!(emit_targets(&vec![1], "same", &mut cache), vec![1]);
    assert_eq!(emit_targets(&vec![1, 2], "same", &mut cache), vec![2]);
}

#[test]
fn unchanged_payload_is_sent_to_new_spaces_view() {
    let mut cache = EmitCache::new();
    assert_eq!(emit_targets(&vec![5], "a", &mut cache), vec![5]);
    assert_eq!(emit_targets(&vec![5], "a", &mut cache), Vec::<u64>::new());
    assert_eq!(emit_targets(&vec![5, 6], "b", &mut cache), vec![5, 6]);
}

#[test]
fn delete_session_removes_named_session_from_registry() {
    let mut records = vec![default_record(), rec("work", "Work")];
    let deleted = delete_record(&mut records, "work").unwrap();
    assert_eq!(deleted.id, "work");
    assert_eq!(records, vec![default_record()]);
}

#[test]
fn delete_session_keeps_default_session() {
    let mut records = vec![default_record()];
    assert!(delete_record(&mut records, "default").is_none());
    assert_eq!(records, vec![default_record()]);
}

#[test]
fn delete_space_removes_named_space_from_registry() {
    let mut records = vec![default_record(), rec("docs", "Docs"), rec("x", "X")];
    let deleted = delete_record(&mut records, "docs").unwrap();
    assert_eq!(deleted.name, "Docs");
    assert_eq!(records, vec![default_record(), rec("x", "X")]);
    assert!(delete_record(&mut records, "missing").is_none());
    assert_eq!(records.len(), 2);
}

#[test]
fn delete_space_keeps_default_space() {
    let mut records = vec![default_record(), rec("docs", "Docs")];
    assert!(delete_record(&mut records, "default").is_none());
    assert_eq!(records.len(), 2);
}

#[test]
fn delete_active_session_defers_current_layout_teardown() {
    let mut records = vec![default_record(), rec("work", "Work")];
    let active = rec("work", "Work");
    let (plan, write) = plan_registry_command(
        &mut records,
        &active,
        &cmd("delete", Some("work")),
        String::new(),
        String::new(),
        &default_record(),
    );
    assert!(write);
    match plan {
        RegistryPlan::Deleted { deleted, switch_to } => {
            assert_eq!(deleted.id, "work");
            assert_eq!(switch_to, Some(default_record()));
        }
        other => panic!("expected a deletion, got {other:?}"),
    }
}

#[test]
fn delete_inactive_record_does_not_switch() {
    let mut records = vec![default_record(), rec("work", "Work")];
    let (plan, write) = plan_registry_command(
        &mut records,
        &default_record(),
        &cmd("delete", Some("work")),
        String::new(),
        String::new(),
        &default_record(),
    );
    assert!(write);
    assert!(matches!(plan, RegistryPlan::Deleted { switch_to: None, .. }));
}

#[test]
fn deferred_active_session_delete_spawns_target_layout() {
    let mut pending = Some(PendingSwitch { from_id: "work".into(), record: default_record(), delay_frames: 1 });
    assert_eq!(tick_pending_switch(&mut pending, "work"), None);
    assert!(pending.is_some());
    assert_eq!(tick_pending_switch(&mut pending, "work"), Some(default_record()));
    assert!(pending.is_none());
}

#[test]
fn deferred_switch_dropped_when_active_changed() {
    let mut pending = Some(PendingSwitch { from_id: "work".into(), record: default_record(), delay_frames: 0 });
    assert_eq!(tick_pending_switch(&mut pending, "other"), None);
    assert!(pending.is_none());
}

#[test]
fn new_session_spawns_sessions_page_layout() {
    let mut records = vec![default_record()];
    let name = new_record_name(&None, "Session", &records);
    assert_eq!(name, "Session 2");
    let (plan, write) = plan_registry_command(
        &mut records,
        &default_record(),
        &cmd("new", None),
        name,
        "s-2".to_string(),
        &default_record(),
    );
    assert!(write);
    assert_eq!(records.len(), 2);
    assert_eq!(records[1].id, "s-2");
    assert_eq!(records[1].profile, "default");
    match plan {
        RegistryPlan::Switch { target, created } => {
            assert!(created);
            assert_eq!(target.name, "Session 2");
        }
        other => panic!("expected a switch, got {other:?}"),
    }
}

#[test]
fn new_space_spawns_spaces_page_layout() {
    let mut records = vec![default_record()];
    let name = new_record_name(&Some("Research".to_string()), "Space", &records);
    assert_eq!(name, "Research");
}

#[test]
fn attach_switches_to_other_record_only() {
    let mut records = vec![default_record(), rec("work", "Work")];
    let (plan, write) = plan_registry_command(
        &mut records,
        &default_record(),
        &cmd("attach", Some("work")),
        String::new(),
        String::new(),
        &default_record(),
    );
    assert!(!write);
    assert!(matches!(plan, RegistryPlan::Switch { created: false, .. }));
    let (plan, _) = plan_registry_command(
        &mut records,
        &default_record(),
        &cmd("attach", Some("default")),
        String::new(),
        String::new(),
        &default_record(),
    );
    assert!(matches!(plan, RegistryPlan::Ignore));
    let (plan, _) = plan_registry_command(
        &mut records,
        &default_record(),
        &cmd("rename", Some("work")),
        String::new(),
        String::new(),
        &default_record(),
    );
    assert!(matches!(plan, RegistryPlan::Ignore));
}

#[test]
fn normalized_registry_always_holds_default() {
    let mut records = Vec::new();
    normalize_registry(&mut records, &default_record());
    assert_eq!(records, vec![default_record()]);
    let mut records = vec![rec("work", "Work")];
    normalize_registry(&mut records, &default_record());
    assert_eq!(records, vec![default_record(), rec("work", "Work")]);
    let mut records = vec![rec("work", "Work"), default_record()];
    normalize_registry(&mut records, &default_record());
    assert_eq!(records, vec![rec("work", "Work"), default_record()]);
}

#[test]
fn initial_record_prefers_default() {
    let records = vec![rec("work", "Work"), default_record()];
    assert_eq!(initial_record(&records, &rec("f", "F")), default_record());
    let records = vec![rec("work", "Work")];
    assert_eq!(initial_record(&records, &rec("f", "F")), rec("work", "Work"));
    assert_eq!(initial_record(&Vec::new(), &rec("f", "F")), rec("f", "F"));
}
