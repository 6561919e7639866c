use vmux_desktop::plugins::{BuildFeatures, DesktopPlugins, PluginId};
use vmux_desktop::splash::{
    dismiss_step, splash_decision, splash_initial_status, splash_material, splash_panel_behavior,
    splash_title, SplashAction, SplashEffect, SplashMaterial, SplashState, SPLASH_FADE_NS,
    SPLASH_TIMEOUT_NS,
};

const SEC: u64 = 1_000_000_000;

#[test]
fn hidden_within_timeout_does_nothing() {
    assert_eq!(splash_decision(false, false, SEC), SplashAction::Idle);
}

#[test]
fn visible_triggers_fade() {
    assert_eq!(splash_decision(true, false, SEC), SplashAction::Fade);
}

#[test]
fn hidden_past_timeout_forces_dismiss() {
    assert_eq!(splash_decision(false, false, 20 * SEC), SplashAction::Force);
    assert_eq!(splash_decision(false, false, SPLASH_TIMEOUT_NS - 1), SplashAction::Idle);
}

#[test]
fn dismissed_is_idempotent() {
    assert_eq!(splash_decision(true, true, SEC), SplashAction::Idle);
    assert_eq!(splash_decision(false, true, 99 * SEC), SplashAction::Idle);
}

#[test]
fn splash_plugin_registered_in_lib() {
    let f = BuildFeatures { tray: true, updater: true, macos: true, native_glass: true };
    assert!(DesktopPlugins.plugins(f).contains(&PluginId::Splash));
    let g = BuildFeatures { tray: true, updater: true, macos: false, native_glass: true };
    assert!(!DesktopPlugins.plugins(g).contains(&PluginId::Splash));
}

#[test]
fn splash_uses_spinner_and_version_detected_material() {
    assert_eq!(splash_material(true), SplashMaterial::Glass);
    assert_eq!(splash_material(false), SplashMaterial::VisualEffect);
}

#[test]
fn splash_shows_title_and_status_label() {
    assert_eq!(splash_title(), "Vmux");
    assert_eq!(splash_initial_status(), "Starting...");
}

#[test]
fn splash_panel_is_fullscreen_auxiliary() {
    let b = splash_panel_behavior();
    assert!(b.full_screen_auxiliary);
    assert!(b.can_join_all_spaces);
}

#[test]
fn splash_fades_then_closes_after_fade_time() {
    let mut s = SplashState { open: true, dismissed: false, created_at: Some(0), fade_started: None };
    assert_eq!(dismiss_step(&mut s, false, SEC), SplashEffect::Nothing);
    assert_eq!(dismiss_step(&mut s, true, 2 * SEC), SplashEffect::FadeOut { forced: false });
    assert!(s.dismissed);
    assert_eq!(dismiss_step(&mut s, true, 2 * SEC + 100_000_000), SplashEffect::Nothing);
    assert_eq!(dismiss_step(&mut s, true, 2 * SEC + SPLASH_FADE_NS), SplashEffect::Close);
    assert!(!s.open);
    assert_eq!(dismiss_step(&mut s, true, 9 * SEC), SplashEffect::Nothing);
}

#[test]
fn splash_forced_when_window_never_shows() {
    let mut s = SplashState { open: true, dismissed: false, created_at: Some(SEC), fade_started: None };
    assert_eq!(dismiss_step(&mut s, false, 21 * SEC), SplashEffect::FadeOut { forced: true });
    assert_eq!(s.fade_started, Some(21 * SEC));
}
