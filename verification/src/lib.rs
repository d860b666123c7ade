//! Plugin, source and renderer rules of a wallpaper daemon.
pub mod error;
pub mod map;
pub mod path;
pub mod plugin;
pub mod probe_task;
pub mod producer;
pub mod renderer_manager;
pub mod text;
pub mod wallpaper;
pub mod wallpaper_type;
