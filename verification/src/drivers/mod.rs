//! What the drivers report.

pub mod input;
