//! Source plugins: Lua code that finds wallpapers locally and remotely.
pub mod answers;
pub mod callbacks;
pub mod catalog;
pub mod context;
pub mod declared;
pub mod entry;
pub mod filters;
pub mod info;
pub mod interface;
pub mod labels;
pub mod patch;
pub mod redact;
pub mod replies;
pub mod requests;
pub mod runtime;
pub mod schema;
pub mod state;
pub mod types;
