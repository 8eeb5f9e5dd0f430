//! Desktop skin manager core: skin manifests, packages, settings validation,
//! localisation, focus-mode decisions and the small state machines behind
//! the hot-reload watcher, hotkeys and the log buffer.

pub mod app_log;
pub mod archive;
pub mod backup;
pub mod commands;
pub mod desktop;
pub mod elevation;
pub mod focus;
pub mod hotkey;
pub mod hotreload;
pub mod i18n;
pub mod json;
pub mod policy;
pub mod skin;
pub mod startup;
pub mod swap;
pub mod text;
