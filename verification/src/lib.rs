//! Verified core of the Oku hive browser: configuration state, history
//! graphs, address resolution, scheme paths, appearance rules and the
//! text helpers they rest on.

pub mod text;
pub mod order;
pub mod config;
pub mod replica_item;
pub mod bookmark_item;
pub mod history_item;
pub mod path;
pub mod history;
pub mod suggestions;
pub mod window_util;
pub mod colour;
pub mod vox_providers;
pub mod window_state;
pub mod launch;
pub mod database;
pub mod row_text;
pub mod note_tags;
pub mod pages;
pub mod scheme_handlers;
