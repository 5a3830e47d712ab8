//! The physical buttons.

use vstd::prelude::*;

verus! {

#[derive(Debug, Clone, Copy, PartialEq, Eq, Structural)]
pub enum Button {
    VolDown,
    VolUp,
    Right,
    Left,
    Confirm,
    Back,
    Power,
}

} // verus!
