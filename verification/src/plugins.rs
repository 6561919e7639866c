//! How the desktop shell is composed: the plugin groups and what each holds,
//! in the order they are added, and the title of its main window.
use crate::text::str_eq;
use vstd::prelude::*;
use vstd::string::*;

verus! {

/// The plugins the shell is built from.
#[derive(Clone, Copy, Debug, PartialEq, Eq, Structural)]
pub enum PluginId {
    Core,
    PageServer,
    Command,
    Settings,
    Persistence,
    WindowState,
    Display,
    BackgroundLifecycle,
    Relaunch,
    MediaPermission,
    OsMenu,
    Shortcut,
    LeChatBridge,
    Tray,
    Updater,
    Glass,
    Splash,
    Terminal,
    Editor,
    Git,
    Agent,
    Knowledge,
    History,
    Team,
    Space,
    Service,
    Start,
    Tools,
}

/// The build's optional features and platform.
#[derive(Clone, Copy, Debug, PartialEq, Eq, Structural)]
pub struct BuildFeatures {
    pub tray: bool,
    pub updater: bool,
    pub macos: bool,
    pub native_glass: bool,
}

/// Foundation plugins: shared type registration, the page server, command
/// routing, settings, and session persistence.
#[derive(Clone, Copy, Debug, PartialEq, Eq)]
pub struct VmuxCorePlugins;

/// The OS-facing layer: windows and displays, background lifecycle, the menu
/// bar and tray, global shortcuts, permissions, and updates.
#[derive(Clone, Copy, Debug, PartialEq, Eq)]
pub struct DesktopPlugins;

/// The user-facing feature domains, each of which may register pages.
#[derive(Clone, Copy, Debug, PartialEq, Eq)]
pub struct FeaturePlugins;

impl VmuxCorePlugins {
    /// The plugins of the group, in the order they are added.
    pub fn plugins(&self) -> (ps: Vec<PluginId>)
        ensures
            ps@ == seq![
                PluginId::Core,
                PluginId::PageServer,
                PluginId::Command,
                PluginId::Settings,
                PluginId::Persistence,
            ],
    {
        let mut ps: Vec<PluginId> = Vec::new();
        ps.push(PluginId::Core);
        ps.push(PluginId::PageServer);
        ps.push(PluginId::Command);
        ps.push(PluginId::Settings);
        ps.push(PluginId::Persistence);
        assert(ps@ =~= seq![
            PluginId::Core,
            PluginId::PageServer,
            PluginId::Command,
            PluginId::Settings,
            PluginId::Persistence,
        ]);
        ps
    }
}

/// The plugins of the desktop group for a build: the fixed ones, then the
/// tray, the updater, and the glass and splash of native-glass macOS builds,
/// each where the build has it.
pub open spec fn spec_desktop_plugins(f: BuildFeatures) -> Seq<PluginId> {
    let base = seq![
        PluginId::WindowState,
        PluginId::Display,
        PluginId::BackgroundLifecycle,
        PluginId::Relaunch,
        PluginId::MediaPermission,
        PluginId::OsMenu,
        PluginId::Shortcut,
        PluginId::LeChatBridge,
    ];
    let a = if f.tray {
        base.push(PluginId::Tray)
    } else {
        base
    };
    let b = if f.updater {
        a.push(PluginId::Updater)
    } else {
        a
    };
    if f.macos && f.native_glass {
        b.push(PluginId::Glass).push(PluginId::Splash)
    } else {
        b
    }
}

impl DesktopPlugins {
    /// The plugins of the group for a build, in order (see `spec_desktop_plugins`).
    pub fn plugins(&self, f: BuildFeatures) -> (ps: Vec<PluginId>)
        ensures
            ps@ == spec_desktop_plugins(f),
    {
        let mut ps: Vec<PluginId> = Vec::new();
        ps.push(PluginId::WindowState);
        ps.push(PluginId::Display);
        ps.push(PluginId::BackgroundLifecycle);
        ps.push(PluginId::Relaunch);
        ps.push(PluginId::MediaPermission);
        ps.push(PluginId::OsMenu);
        ps.push(PluginId::Shortcut);
        ps.push(PluginId::LeChatBridge);
        let ghost base = ps@;
        if f.tray {
            ps.push(PluginId::Tray);
        }
        if f.updater {
            ps.push(PluginId::Updater);
        }
        if f.macos && f.native_glass {
            ps.push(PluginId::Glass);
            ps.push(PluginId::Splash);
        }
        assert(ps@ =~= spec_desktop_plugins(f));
        ps
    }
}

impl FeaturePlugins {
    /// The plugins of the group, in the order they are added.
    pub fn plugins(&self) -> (ps: Vec<PluginId>)
        ensures
            ps@ == seq![
                PluginId::Terminal,
                PluginId::Editor,
                PluginId::Git,
                PluginId::Agent,
                PluginId::Knowledge,
                PluginId::History,
                PluginId::Team,
                PluginId::Space,
                PluginId::Service,
                PluginId::Start,
                PluginId::Tools,
            ],
    {
        let mut ps: Vec<PluginId> = Vec::new();
        ps.push(PluginId::Terminal);
        ps.push(PluginId::Editor);
        ps.push(PluginId::Git);
        ps.push(PluginId::Agent);
        ps.push(PluginId::Knowledge);
        ps.push(PluginId::History);
        ps.push(PluginId::Team);
        ps.push(PluginId::Space);
        ps.push(PluginId::Service);
        ps.push(PluginId::Start);
        ps.push(PluginId::Tools);
        assert(ps@ =~= seq![
            PluginId::Terminal,
            PluginId::Editor,
            PluginId::Git,
            PluginId::Agent,
            PluginId::Knowledge,
            PluginId::History,
            PluginId::Team,
            PluginId::Space,
            PluginId::Service,
            PluginId::Start,
            PluginId::Tools,
        ]);
        ps
    }
}

/// The title of the main window for a build profile: plain for release, with
/// the commit for local and dev builds, with the profile otherwise.
pub open spec fn spec_window_title(profile: Seq<char>, git_hash: Seq<char>) -> Seq<char> {
    if profile == "release"@ {
        "Vmux"@
    } else if profile == "local"@ {
        "Vmux ("@ + git_hash + ")"@
    } else if profile == "dev"@ {
        "Vmux Dev ("@ + git_hash + ")"@
    } else {
        "Vmux ("@ + profile + ")"@
    }
}

/// The title of the main window (see `spec_window_title`).
pub fn window_title(profile: &str, git_hash: &str) -> (t: String)
    ensures
        t@ == spec_window_title(profile@, git_hash@),
{
    if str_eq(profile, "release") {
        "Vmux".to_owned()
    } else if str_eq(profile, "local") {
        "Vmux (".to_owned().concat(git_hash).concat(")")
    } else if str_eq(profile, "dev") {
        "Vmux Dev (".to_owned().concat(git_hash).concat(")")
    } else {
        "Vmux (".to_owned().concat(profile).concat(")")
    }
}

/// The suffix after the version in the start-up banner: none for release,
/// the commit for local builds, `dev` and the commit for dev builds, and the
/// profile otherwise.
pub open spec fn spec_version_suffix(profile: Seq<char>, git_hash: Seq<char>) -> Seq<char> {
    if profile == "release"@ {
        Seq::empty()
    } else if profile == "local"@ {
        " ("@ + git_hash + ")"@
    } else if profile == "dev"@ {
        " dev ("@ + git_hash + ")"@
    } else {
        " ("@ + profile + ")"@
    }
}

/// The suffix after the version in the start-up banner (see `spec_version_suffix`).
pub fn version_suffix(profile: &str, git_hash: &str) -> (t: String)
    ensures
        t@ == spec_version_suffix(profile@, git_hash@),
{
    if str_eq(profile, "release") {
        String::new()
    } else if str_eq(profile, "local") {
        " (".to_owned().concat(git_hash).concat(")")
    } else if str_eq(profile, "dev") {
        " dev (".to_owned().concat(git_hash).concat(")")
    } else {
        " (".to_owned().concat(profile).concat(")")
    }
}

/// What the main window's plugin does when windows close.
#[derive(Clone, Copy, Debug, PartialEq, Eq, Structural)]
pub struct WindowLifecyclePolicy {
    /// Whether a close request closes the window by itself.
    pub close_when_requested: bool,
    /// Whether the app exits once its last window is gone.
    pub exit_when_windows_closed: bool,
}

/// The shell keeps running with every window closed, and handles close
/// requests itself (hiding the window).
pub fn window_lifecycle_policy() -> (p: WindowLifecyclePolicy)
    ensures
        !p.close_when_requested,
        !p.exit_when_windows_closed,
{
    WindowLifecyclePolicy { close_when_requested: false, exit_when_windows_closed: false }
}

/// First-launch width of the main window (logical px) when no geometry was saved.
pub const DEFAULT_WINDOW_WIDTH: u32 = 1280;
/// First-launch height of the main window (logical px) when no geometry was saved.
pub const DEFAULT_WINDOW_HEIGHT: u32 = 800;

/// What the main window is created with, as plain values.
#[derive(Clone, Debug)]
pub struct WindowConfig {
    pub title: String,
    pub transparent: bool,
    pub decorations: bool,
    pub titlebar_shown: bool,
    pub titlebar_transparent: bool,
    pub titlebar_show_title: bool,
    pub titlebar_show_buttons: bool,
    pub movable_by_window_background: bool,
    pub fullsize_content_view: bool,
    pub ime_enabled: bool,
    /// Whether the window is shown at once; a native glass backdrop on macOS
    /// shows it only after the backdrop is set up.
    pub visible: bool,
    /// Whether the window is centered on the primary monitor.
    pub centered_on_primary: bool,
    pub width: u32,
    pub height: u32,
}

/// The main window: transparent with a hidden, transparent title bar, text
/// input (IME) on, centered at the default size, and hidden at first exactly
/// when a native glass backdrop still has to be set up.
pub fn primary_window_config(title: String, native_glass_macos: bool) -> (w: WindowConfig)
    ensures
        w.title@ == title@,
        w.transparent,
        w.decorations,
        w.titlebar_shown,
        w.titlebar_transparent,
        !w.titlebar_show_title,
        !w.titlebar_show_buttons,
        !w.movable_by_window_background,
        w.fullsize_content_view,
        w.ime_enabled,
        w.visible == !native_glass_macos,
        w.centered_on_primary,
        w.width == DEFAULT_WINDOW_WIDTH,
        w.height == DEFAULT_WINDOW_HEIGHT,
{
    WindowConfig {
        title,
        transparent: true,
        decorations: true,
        titlebar_shown: true,
        titlebar_transparent: true,
        titlebar_show_title: false,
        titlebar_show_buttons: false,
        movable_by_window_background: false,
        fullsize_content_view: true,
        ime_enabled: true,
        visible: !native_glass_macos,
        centered_on_primary: true,
        width: DEFAULT_WINDOW_WIDTH,
        height: DEFAULT_WINDOW_HEIGHT,
    }
}

} // verus!
