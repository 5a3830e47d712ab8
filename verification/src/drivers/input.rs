//! Button events as the input driver reports them.

use vstd::prelude::*;

use crate::board::button::Button;

verus! {

#[derive(Debug, Clone, Copy, PartialEq, Eq, Structural)]
pub enum Event {
    Press(Button),
    Release(Button),
    LongPress(Button),
    Repeat(Button),
}

} // verus!
