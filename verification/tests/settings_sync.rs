use vmux_desktop::settings_sync::{settings_content_hash, SelfWriteGuard};

#[test]
fn content_hash_is_deterministic() {
    let h1 = settings_content_hash(b"hello");
    let h2 = settings_content_hash(b"hello");
    let h3 = settings_content_hash(b"world");
    assert_eq!(h1, h2);
    assert_ne!(h1, h3);
}

#[test]
fn own_write_is_not_reloaded_but_other_edits_are() {
    let mut g = SelfWriteGuard::new();
    assert!(g.should_reload("(auto_update: true)"));
    g.record_write(b"(auto_update: true)");
    assert!(!g.should_reload("(auto_update: true)"));
    assert!(g.should_reload("(auto_update: false)"));
}
