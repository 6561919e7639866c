//! The splash panel shown while the shell boots: when it fades, when it is
//! forced away, and when it closes.
use vstd::prelude::*;

verus! {

/// How long the splash waits for the main window before it is forced away,
/// in nanoseconds.
pub const SPLASH_TIMEOUT_NS: u64 = 20_000_000_000;

/// How long the fade lasts before the panel closes, in nanoseconds.
pub const SPLASH_FADE_NS: u64 = 280_000_000;

/// What the splash does on a frame.
#[derive(Clone, Copy, Debug, PartialEq, Eq, Structural)]
pub enum SplashAction {
    Idle,
    Fade,
    Force,
}

/// A splash already dismissed does nothing more; one whose window shows
/// fades; one that waited the whole timeout is forced away.
pub open spec fn spec_splash_decision(visible: bool, dismissed: bool, elapsed_ns: u64) -> SplashAction {
    if dismissed {
        SplashAction::Idle
    } else if visible {
        SplashAction::Fade
    } else if elapsed_ns >= SPLASH_TIMEOUT_NS {
        SplashAction::Force
    } else {
        SplashAction::Idle
    }
}

/// What the splash does on a frame (see `spec_splash_decision`).
pub fn splash_decision(visible: bool, dismissed: bool, elapsed_ns: u64) -> (a: SplashAction)
    ensures
        a == spec_splash_decision(visible, dismissed, elapsed_ns),
{
    if dismissed {
        return SplashAction::Idle;
    }
    if visible {
        return SplashAction::Fade;
    }
    if elapsed_ns >= SPLASH_TIMEOUT_NS {
        return SplashAction::Force;
    }
    SplashAction::Idle
}

/// The splash panel's state: whether it is open, whether it was
/// dismissed, when it was shown and when its fade began (monotonic
/// nanoseconds).
#[derive(Clone, Copy, Debug, PartialEq, Eq, Structural)]
pub struct SplashState {
    pub open: bool,
    pub dismissed: bool,
    pub created_at: Option<u64>,
    pub fade_started: Option<u64>,
}

/// What the panel is told to do on a frame.
#[derive(Clone, Copy, Debug, PartialEq, Eq, Structural)]
pub enum SplashEffect {
    Nothing,
    /// Start fading out; `forced` when the main window never showed.
    FadeOut { forced: bool },
    /// Close the panel.
    Close,
}

/// Time from `t` to `now`, none where the clock went back.
pub open spec fn since(t: u64, now: u64) -> u64 {
    if now >= t {
        (now - t) as u64
    } else {
        0
    }
}

/// One frame of the splash: a closed panel does nothing; otherwise the
/// decision stands on the window's visibility and the time since the panel
/// was shown. Fading or forcing marks the splash dismissed and starts the
/// fade; doing nothing closes the panel once the fade has run its course.
pub open spec fn spec_dismiss_step(s: SplashState, visible: bool, now: u64) -> (SplashState, SplashEffect) {
    if !s.open {
        (s, SplashEffect::Nothing)
    } else {
        let elapsed = match s.created_at {
            Some(t) => since(t, now),
            None => 0,
        };
        match spec_splash_decision(visible, s.dismissed, elapsed) {
            SplashAction::Idle => match s.fade_started {
                Some(f) => if since(f, now) >= SPLASH_FADE_NS {
                    (SplashState { open: false, ..s }, SplashEffect::Close)
                } else {
                    (s, SplashEffect::Nothing)
                },
                None => (s, SplashEffect::Nothing),
            },
            SplashAction::Fade => (
                SplashState { dismissed: true, fade_started: Some(now), ..s },
                SplashEffect::FadeOut { forced: false },
            ),
            SplashAction::Force => (
                SplashState { dismissed: true, fade_started: Some(now), ..s },
                SplashEffect::FadeOut { forced: true },
            ),
        }
    }
}

/// One frame of the splash (see `spec_dismiss_step`).
pub fn dismiss_step(state: &mut SplashState, visible: bool, now: u64) -> (e: SplashEffect)
    ensures
        (*final(state), e) == spec_dismiss_step(*old(state), visible, now),
{
    if !state.open {
        return SplashEffect::Nothing;
    }
    let elapsed = match state.created_at {
        Some(t) => now.saturating_sub(t),
        None => 0,
    };
    match splash_decision(visible, state.dismissed, elapsed) {
        SplashAction::Idle => {
            match state.fade_started {
                Some(f) => {
                    if now.saturating_sub(f) >= SPLASH_FADE_NS {
                        state.open = false;
                        SplashEffect::Close
                    } else {
                        SplashEffect::Nothing
                    }
                },
                None => SplashEffect::Nothing,
            }
        },
        SplashAction::Fade => {
            state.dismissed = true;
            state.fade_started = Some(now);
            SplashEffect::FadeOut { forced: false }
        },
        SplashAction::Force => {
            state.dismissed = true;
            state.fade_started = Some(now);
            SplashEffect::FadeOut { forced: true }
        },
    }
}

/// Once dismissed, the splash is never faded or forced again, whatever the
/// window does and however long it waits.
pub proof fn law_dismissed_is_final(s: SplashState, visible: bool, now: u64)
    requires
        s.dismissed,
    ensures
        spec_dismiss_step(s, visible, now).0.dismissed,
        !(spec_dismiss_step(s, visible, now).1 is FadeOut),
{
}

/// The backdrop of the splash panel: the glass view where the system has
/// it, the visual-effect view otherwise.
#[derive(Clone, Copy, Debug, PartialEq, Eq, Structural)]
pub enum SplashMaterial {
    Glass,
    VisualEffect,
}

/// The backdrop of the splash panel for a system with or without the glass view.
pub fn splash_material(glass_available: bool) -> (m: SplashMaterial)
    ensures
        m == (if glass_available {
            SplashMaterial::Glass
        } else {
            SplashMaterial::VisualEffect
        }),
{
    if glass_available {
        SplashMaterial::Glass
    } else {
        SplashMaterial::VisualEffect
    }
}

/// How the splash panel behaves among spaces and full-screen apps.
#[derive(Clone, Copy, Debug, PartialEq, Eq, Structural)]
pub struct PanelBehavior {
    pub can_join_all_spaces: bool,
    pub full_screen_auxiliary: bool,
    pub ignores_cycle: bool,
}

/// The splash panel shows on every space, over full-screen apps, and is
/// left out of window cycling.
pub fn splash_panel_behavior() -> (b: PanelBehavior)
    ensures
        b.can_join_all_spaces && b.full_screen_auxiliary && b.ignores_cycle,
{
    PanelBehavior { can_join_all_spaces: true, full_screen_auxiliary: true, ignores_cycle: true }
}

/// The splash panel's title.
pub fn splash_title() -> (t: &'static str)
    ensures
        t@ == "Vmux"@,
{
    "Vmux"
}

/// The status line the splash panel starts with, before the boot status
/// replaces it.
pub fn splash_initial_status() -> (t: &'static str)
    ensures
        t@ == "Starting..."@,
{
    "Starting..."
}

} // verus!
