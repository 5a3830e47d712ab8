//! The apps.

pub mod files;
pub mod lists;
pub mod manager;
pub mod reader;
pub mod settings;
pub mod titles;
