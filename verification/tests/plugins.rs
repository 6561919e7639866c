use vmux_desktop::plugins::{
    primary_window_config, DEFAULT_WINDOW_HEIGHT, DEFAULT_WINDOW_WIDTH, version_suffix, window_lifecycle_policy, window_title, BuildFeatures, DesktopPlugins, FeaturePlugins,
    PluginId, VmuxCorePlugins,
};

#[test]
fn window_plugin_keeps_app_alive_after_last_window_closes() {
    let p = window_lifecycle_policy();
    assert!(
        !p.exit_when_windows_closed,
        "WindowPlugin must opt out of automatic exit so Vmux.app survives last-window-close"
    );
    assert!(!p.close_when_requested);
}

#[test]
fn window_title_depends_on_profile() {
    assert_eq!(window_title("release", "abc123"), "Vmux");
    assert_eq!(window_title("local", "abc123"), "Vmux (abc123)");
    assert_eq!(window_title("dev", "abc123"), "Vmux Dev (abc123)");
    assert_eq!(window_title("nightly", "abc123"), "Vmux (nightly)");
}

#[test]
fn plugin_groups_list_their_plugins_in_order() {
    assert_eq!(VmuxCorePlugins.plugins()[0], PluginId::Core);
    assert_eq!(FeaturePlugins.plugins().len(), 11);
    let f = BuildFeatures { tray: false, updater: false, macos: false, native_glass: false };
    let ps = DesktopPlugins.plugins(f);
    assert_eq!(ps.len(), 8);
    assert!(!ps.contains(&PluginId::Tray));
    let g = BuildFeatures { tray: true, updater: true, macos: true, native_glass: true };
    let ps = DesktopPlugins.plugins(g);
    assert_eq!(&ps[8..], &[PluginId::Tray, PluginId::Updater, PluginId::Glass, PluginId::Splash]);
}

#[test]
fn banner_version_suffix_depends_on_profile() {
    assert_eq!(version_suffix("release", "abc"), "");
    assert_eq!(version_suffix("local", "abc"), " (abc)");
    assert_eq!(version_suffix("dev", "abc"), " dev (abc)");
    assert_eq!(version_suffix("beta", "abc"), " (beta)");
}

#[test]
fn primary_window_enables_ime_input() {
    let window = primary_window_config("Vmux".to_string(), false);

    assert!(window.ime_enabled);
}

#[test]
fn primary_window_starts_hidden_when_native_glass_needs_backdrop_setup() {
    let window = primary_window_config("Vmux".to_string(), true);
    assert!(!window.visible);

    let window = primary_window_config("Vmux".to_string(), false);
    assert!(window.visible);
}

#[test]
fn primary_window_defaults_to_centered_default_size() {
    let window = primary_window_config("Vmux".to_string(), false);

    assert!(window.centered_on_primary);
    assert_eq!(window.width, DEFAULT_WINDOW_WIDTH);
    assert_eq!(window.height, DEFAULT_WINDOW_HEIGHT);
    assert_eq!(window.width, 1280);
    assert_eq!(window.height, 800);
    assert_eq!(window.title, "Vmux");
}
