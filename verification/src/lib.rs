//! Verified decision logic of the vmux desktop shell: log forwarding, crash
//! records, keyboard shortcuts and chords, terminal input encoding, media
//! permissions, settings paths, capture helpers and the plugin composition.
use vstd::prelude::*;

pub mod capture;
pub mod copy_mode;
pub mod crash;
pub mod decimal;
pub mod key_input;
pub mod keys;
pub mod lechat;
pub mod log_forward;
pub mod media_permission;
pub mod native_keyboard;
pub mod notification;
pub mod os_menu;
pub mod palette;
pub mod persistence;
pub mod plugins;
pub mod registry;
pub mod relaunch;
pub mod runtime_policy;
pub mod service_connect;
pub mod service_dispatch;
pub mod settings_path;
pub mod settings_sync;
pub mod shortcut;
pub mod shortcut_settings;
pub mod sorting;
pub mod splash;
pub mod terminal_input;
pub mod terminal_keys;
pub mod terminal_launch;
pub mod terminal_mouse;
pub mod terminal_theme;
pub mod text;
pub mod tool_catalogs;
pub mod tools;
pub mod tray;

verus! {

} // verus!
