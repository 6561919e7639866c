use vmux_desktop::terminal_launch::{
    default_shell, plain_shell_launch, new_terminal_launch, restart_plan, terminal_title, refresh_startup_url, resolve_startup_url,
    should_confirm_close, terminal_shell, terminal_url, terminal_url_update, AgentKind, PidTable,
    TerminalKind, TerminalLaunch, TerminalSettingsText, ThemeText,
};

#[test]
fn terminal_launch_plain_construction() {
    let launch = TerminalLaunch {
        command: "/bin/zsh".to_string(),
        args: vec![],
        cwd: "/tmp".to_string(),
        env: vec![],
        kind: TerminalKind::Plain,
    };
    assert_eq!(launch.kind, TerminalKind::Plain);
    assert!(launch.args.is_empty());
}

#[test]
fn terminal_kind_from_agent_kind_maps_each_variant() {
    assert_eq!(TerminalKind::from(AgentKind::Vibe), TerminalKind::Vibe);
    assert_eq!(TerminalKind::from(AgentKind::Claude), TerminalKind::Claude);
    assert_eq!(TerminalKind::from(AgentKind::Codex), TerminalKind::Codex);
}

#[test]
fn terminal_launch_vibe_with_resume_args() {
    let launch = TerminalLaunch {
        command: "/usr/local/bin/vibe".to_string(),
        args: vec!["--trust".into(), "--resume".into(), "abc-123".into()],
        cwd: "/work".to_string(),
        env: vec![("VIBE_MCP_SERVERS".into(), "[]".into())],
        kind: TerminalKind::Vibe,
    };
    assert_eq!(launch.kind, TerminalKind::Vibe);
    assert_eq!(launch.args.len(), 3);
    assert!(launch.env.iter().any(|(k, _)| k == "VIBE_MCP_SERVERS"));
}

#[test]
fn respawn_shell_on_agent_exit_swaps_kind_and_drops_agent() {
    let launch = plain_shell_launch("/bin/zsh", "/work".to_string());
    assert_eq!(launch.kind, TerminalKind::Plain);
    assert_eq!(launch.command, "/bin/zsh");
    assert_eq!(launch.cwd, "/work");
    assert!(launch.args.is_empty());
    assert!(launch.env.is_empty());
}

#[test]
fn formatter_emits_pid_url_for_terminal_with_pid() {
    let url = terminal_url_update("", Some(4242)).unwrap();
    assert_eq!(url, "vmux://terminal/4242");
}

#[test]
fn formatter_emits_placeholder_for_terminal_without_pid() {
    let url = terminal_url_update("stale", None).unwrap();
    assert_eq!(url, "vmux://terminal/");
}

#[test]
fn formatter_leaves_an_up_to_date_url_alone() {
    assert_eq!(terminal_url_update("vmux://terminal/7", Some(7)), None);
    assert_eq!(terminal_url_update("vmux://terminal/", None), None);
    assert_eq!(terminal_url(Some(0)), "vmux://terminal/0");
    assert_eq!(terminal_url(Some(u32::MAX)), "vmux://terminal/4294967295");
}

#[test]
fn pid_insert_populates_map() {
    let mut table = PidTable::new();
    table.record(7777, 1);
    assert_eq!(table.terminal_of(7777), Some(1));
}

#[test]
fn entity_despawn_removes_pid_from_map() {
    let mut table = PidTable::new();
    table.record(8888, 1);
    table.record(8889, 2);
    table.pid_removed(1, None);
    assert_eq!(table.terminal_of(8888), None);
    assert_eq!(table.terminal_of(8889), Some(2));
}

#[test]
fn changing_pid_updates_map() {
    let mut table = PidTable::new();
    table.record(9000, 5);
    // The pid component is removed while the terminal lives on without one.
    table.pid_removed(5, None);
    table.record(9001, 5);
    assert_eq!(table.terminal_of(9001), Some(5));
    assert_eq!(table.terminal_of(9000), None);
}

#[test]
fn removing_a_replaced_pid_drops_only_that_pid() {
    let mut table = PidTable::new();
    table.record(10, 3);
    table.record(11, 3);
    table.pid_removed(3, Some(10));
    assert_eq!(table.terminal_of(10), None);
    assert_eq!(table.terminal_of(11), Some(3));
}

#[test]
fn resolve_startup_url_returns_user_override() {
    assert_eq!(
        resolve_startup_url(Some("vmux://services/".to_string())),
        "vmux://services/"
    );
}

#[test]
fn resolve_startup_url_defaults_to_vibe() {
    assert_eq!(resolve_startup_url(None), "vmux://agent/vibe/");
}

#[test]
fn startup_url_is_recomputed_only_on_change_or_when_unset() {
    let s = || Some("vmux://services/".to_string());
    assert_eq!(refresh_startup_url(String::new(), false, s()), "vmux://services/");
    assert_eq!(refresh_startup_url("vmux://x/".to_string(), false, s()), "vmux://x/");
    assert_eq!(refresh_startup_url("vmux://x/".to_string(), true, s()), "vmux://services/");
    assert_eq!(refresh_startup_url("vmux://x/".to_string(), true, None), "vmux://agent/vibe/");
}

fn theme(name: &str, shell: &str) -> ThemeText {
    ThemeText {
        name: name.to_string(),
        color_scheme: "solarized".to_string(),
        font_family: "Menlo".to_string(),
        cursor_style: "bar".to_string(),
        cursor_blink: false,
        shell: shell.to_string(),
    }
}

fn settings(shell: Option<&str>, default_theme: &str, themes: Vec<ThemeText>) -> TerminalSettingsText {
    TerminalSettingsText {
        shell: shell.map(|s| s.to_string()),
        font_family: None,
        default_theme: default_theme.to_string(),
        themes,
        confirm_close: false,
    }
}

#[test]
fn theme_is_found_by_name_else_built_from_legacy_fields() {
    let t = settings(Some("/bin/fish"), "work", vec![theme("home", "/bin/bash"), theme("work", "/bin/sh")]);
    let (at, found) = t.resolve_theme("work", "/bin/zsh");
    assert_eq!(at, Some(1));
    assert_eq!(found.shell, "/bin/sh");
    assert_eq!(found.color_scheme, "solarized");

    let (at, fallback) = t.resolve_theme("missing", "/bin/zsh");
    assert_eq!(at, None);
    assert_eq!(fallback.name, "missing");
    assert_eq!(fallback.color_scheme, "catppuccin-mocha");
    assert_eq!(fallback.font_family, "JetBrainsMono Nerd Font");
    assert_eq!(fallback.cursor_style, "block");
    assert!(fallback.cursor_blink);
    assert_eq!(fallback.shell, "/bin/fish");
}

#[test]
fn terminal_shell_follows_default_theme_then_settings_then_environment() {
    let d = default_shell(Some("/opt/bin/nu".to_string()));
    assert_eq!(d, "/opt/bin/nu");
    assert_eq!(default_shell(None), "/bin/zsh");

    assert_eq!(terminal_shell(&None, &d), "/opt/bin/nu");
    let t = settings(None, "work", vec![theme("work", "/bin/sh")]);
    assert_eq!(terminal_shell(&Some(t), &d), "/bin/sh");
    let t = settings(Some("/bin/fish"), "other", vec![theme("work", "/bin/sh")]);
    assert_eq!(terminal_shell(&Some(t), &d), "/bin/fish");
    let t = settings(None, "other", vec![]);
    assert_eq!(terminal_shell(&Some(t), &d), "/opt/bin/nu");
}

#[test]
fn closing_asks_unless_turned_off() {
    assert!(should_confirm_close(&None));
    let mut t = settings(None, "default", vec![]);
    assert!(!should_confirm_close(&Some(t.clone())));
    t.confirm_close = true;
    assert!(should_confirm_close(&Some(t)));
}

fn vibe_launch() -> TerminalLaunch {
    TerminalLaunch {
        command: "/usr/local/bin/vibe".to_string(),
        args: vec!["--trust".into()],
        cwd: "/work".to_string(),
        env: vec![("VIBE_MCP_SERVERS".into(), "[]".into())],
        kind: TerminalKind::Vibe,
    }
}

#[test]
fn restart_reruns_the_launch_with_agent_resume_args() {
    let launch = Some(vibe_launch());
    let plan = restart_plan(1, 2, &launch, Some(vec!["--resume".into(), "abc".into()]), "/bin/zsh");
    assert_eq!(plan.kill, 1);
    assert_eq!(plan.create, 2);
    assert_eq!(plan.command, "/usr/local/bin/vibe");
    assert_eq!(plan.args, vec!["--resume".to_string(), "abc".to_string()]);
    assert_eq!(plan.cwd, "/work");
    assert_eq!(plan.env, vec![("VIBE_MCP_SERVERS".to_string(), "[]".to_string())]);
    assert_eq!((plan.cols, plan.rows), (80, 24));
    assert!(plan.keeps_launch);

    let plan = restart_plan(1, 2, &launch, None, "/bin/zsh");
    assert_eq!(plan.args, vec!["--trust".to_string()]);
}

#[test]
fn restart_without_launch_starts_the_shell() {
    let plan = restart_plan(5, 6, &None, Some(vec!["ignored".into()]), "/bin/fish");
    assert_eq!(plan.command, "/bin/fish");
    assert!(plan.args.is_empty());
    assert_eq!(plan.cwd, "");
    assert!(plan.env.is_empty());
    assert!(!plan.keeps_launch);
    assert_eq!(
        terminal_title("67e55044-10b1-426f-9247-bb680e5fe0c8"),
        "Terminal (67e55044)"
    );
}

#[test]
fn new_terminal_starts_the_shell_in_a_real_directory_only() {
    let l = new_terminal_launch("/bin/zsh", Some("/Users/me/src".to_string()));
    assert_eq!(l.command, "/bin/zsh");
    assert_eq!(l.cwd, "/Users/me/src");
    assert_eq!(l.kind, TerminalKind::Plain);
    assert!(l.args.is_empty() && l.env.is_empty());
    assert_eq!(new_terminal_launch("/bin/zsh", Some("https://example.com".to_string())).cwd, "");
    assert_eq!(new_terminal_launch("/bin/zsh", Some("vmux://terminal/".to_string())).cwd, "");
    assert_eq!(new_terminal_launch("/bin/zsh", None).cwd, "");
}
