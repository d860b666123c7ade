//! Plugins: what they declare, which of them are active, and what they answer.
pub mod display_registry;
pub mod i18n;
pub mod lua;
pub mod renderer_registry;
pub mod settings;
pub mod source;
pub mod source_manager;
pub mod source_snapshot;
pub mod update;
pub mod version;
