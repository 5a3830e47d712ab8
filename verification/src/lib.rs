//! Core logic of the pulp e-reader.

pub mod apps;
pub mod board;
pub mod bytes;
pub mod drivers;
pub mod fonts;
pub mod kernel;
pub mod ui;
