//! What the board looks like to the rest of the system.

pub mod action;
pub mod button;
