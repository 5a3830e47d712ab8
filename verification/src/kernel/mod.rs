//! Bookmarks, configuration, storage requests and the scheduler's decisions.

pub mod app;
pub mod bookmarks;
pub mod config;
pub mod handle;
pub mod scheduler;
