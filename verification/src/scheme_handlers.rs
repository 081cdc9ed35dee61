//! The paths that the browser's own URI schemes carry.

pub mod hive_path;
pub mod oku_path;
pub mod oku_route;
