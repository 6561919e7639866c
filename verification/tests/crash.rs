use vmux_desktop::crash::{crash_record_from_parts, format_crash_record};

#[test]
fn format_crash_record_contains_message_and_location() {
    let out = format_crash_record(
        "2026-06-16T12:00:00Z",
        "main",
        "crates/vmux_desktop/src/main.rs:42:9",
        "boom",
        "<backtrace>",
    );
    assert!(out.contains("boom"), "got {out}");
    assert!(out.contains("crates/vmux_desktop/src/main.rs:42:9"), "got {out}");
    assert!(out.contains("thread=main"), "got {out}");
    assert!(out.contains("PANIC"), "got {out}");
}

#[test]
fn crash_record_has_exact_layout() {
    let out = format_crash_record("T", "w", "f.rs:1:2", "m", "bt");
    assert_eq!(out, "[T] PANIC thread=w at f.rs:1:2\nm\nbt\n");
}

#[test]
fn crash_record_from_parts_formats_location_and_placeholders() {
    let out = crash_record_from_parts("T", Some("main"), Some(("src/main.rs", 42, 9)), Some("boom"), "bt");
    assert_eq!(out, "[T] PANIC thread=main at src/main.rs:42:9\nboom\nbt\n");
    let out = crash_record_from_parts("T", None, None, None, "");
    assert_eq!(
        out,
        "[T] PANIC thread=<unnamed> at <unknown location>\n<non-string panic payload>\n\n"
    );
}
