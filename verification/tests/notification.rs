use vmux_desktop::notification::{applescript_escape, notification_script};

#[test]
fn notification_script_quotes_title_and_body() {
    assert_eq!(
        notification_script("Build", "done"),
        "display notification \"done\" with title \"Build\" sound name \"default\""
    );
}

#[test]
fn applescript_escape_handles_quotes_backslashes_and_newlines() {
    assert_eq!(applescript_escape("say \"hi\""), "say \\\"hi\\\"");
    assert_eq!(applescript_escape("a\\b"), "a\\\\b");
    assert_eq!(applescript_escape("line1\nline2"), "line1 line2");
    assert_eq!(applescript_escape("ünï"), "ünï");
}
