//! Data-access and state-synchronization core of a terminal client for a
//! tree-structured remote item API (stories with nested comment threads).

pub mod atomic_write;
pub mod config;
pub mod controller;
pub mod disk_cache;
pub mod fetch;
pub mod html;
pub mod input;
pub mod item_cache;
pub mod logging;
pub mod nav;
pub mod state;
pub mod text;
pub mod tree;
pub mod types;
