//! Skins: manifests, settings schema, packages and the skin:// protocol.

pub mod config;
pub mod install;
pub mod loader;
pub mod package;
pub mod protocol;
pub mod types;
