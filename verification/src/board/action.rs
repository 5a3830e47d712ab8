//! Semantic actions, apart from the physical buttons. Apps match on `Action`,
//! never on `Button`.

use vstd::prelude::*;

use crate::board::button::Button;
use crate::drivers::input::Event;

verus! {

#[derive(Debug, Clone, Copy, PartialEq, Eq, Structural)]
pub enum Action {
    Next,
    Prev,
    NextJump,
    PrevJump,
    Select,
    Back,
    Menu,
}

#[derive(Debug, Clone, Copy, PartialEq, Eq, Structural)]
pub enum ActionEvent {
    Press(Action),
    Release(Action),
    LongPress(Action),
    Repeat(Action),
}

impl ActionEvent {
    pub open spec fn spec_action(self) -> Action {
        match self {
            ActionEvent::Press(a) => a,
            ActionEvent::Release(a) => a,
            ActionEvent::LongPress(a) => a,
            ActionEvent::Repeat(a) => a,
        }
    }

    pub fn action(self) -> (r: Action)
        ensures
            r == self.spec_action(),
    {
        match self {
            ActionEvent::Press(a) => a,
            ActionEvent::Release(a) => a,
            ActionEvent::LongPress(a) => a,
            ActionEvent::Repeat(a) => a,
        }
    }

    pub fn is_press(self) -> (r: bool)
        ensures
            r == (self is Press),
    {
        matches!(self, ActionEvent::Press(_))
    }

    pub fn is_repeat(self) -> (r: bool)
        ensures
            r == (self is Repeat),
    {
        matches!(self, ActionEvent::Repeat(_))
    }

    pub fn is_press_or_repeat(self) -> (r: bool)
        ensures
            r == (self is Press || self is Repeat),
    {
        matches!(self, ActionEvent::Press(_) | ActionEvent::Repeat(_))
    }
}

/// The action of a button in the portrait, one-handed layout.
pub open spec fn action_of(b: Button) -> Action {
    match b {
        Button::VolDown => Action::Next,
        Button::VolUp => Action::Prev,
        Button::Right => Action::NextJump,
        Button::Left => Action::PrevJump,
        Button::Confirm => Action::Select,
        Button::Back => Action::Back,
        Button::Power => Action::Menu,
    }
}

/// The same kind of event, on the button's action.
pub open spec fn event_of(e: Event) -> ActionEvent {
    match e {
        Event::Press(b) => ActionEvent::Press(action_of(b)),
        Event::Release(b) => ActionEvent::Release(action_of(b)),
        Event::LongPress(b) => ActionEvent::LongPress(action_of(b)),
        Event::Repeat(b) => ActionEvent::Repeat(action_of(b)),
    }
}

/// Fixed mapping of the portrait, one-handed layout.
#[derive(Clone, Copy)]
pub struct ButtonMapper;

impl Default for ButtonMapper {
    fn default() -> (r: ButtonMapper)
        ensures
            r == (ButtonMapper),
    {
        ButtonMapper
    }
}

impl ButtonMapper {
    pub fn new() -> (r: ButtonMapper)
        ensures
            r == (ButtonMapper),
    {
        ButtonMapper
    }

    pub fn map_button(&self, button: Button) -> (r: Action)
        ensures
            r == action_of(button),
    {
        match button {
            Button::VolDown => Action::Next,
            Button::VolUp => Action::Prev,
            Button::Right => Action::NextJump,
            Button::Left => Action::PrevJump,
            Button::Confirm => Action::Select,
            Button::Back => Action::Back,
            Button::Power => Action::Menu,
        }
    }

    pub fn map_event(&self, event: Event) -> (r: ActionEvent)
        ensures
            r == event_of(event),
    {
        match event {
            Event::Press(b) => ActionEvent::Press(self.map_button(b)),
            Event::Release(b) => ActionEvent::Release(self.map_button(b)),
            Event::LongPress(b) => ActionEvent::LongPress(self.map_button(b)),
            Event::Repeat(b) => ActionEvent::Repeat(self.map_button(b)),
        }
    }
}

/// Every action can be reached: no two buttons share one, and each has its
/// button.
pub proof fn law_one_button_per_action(a: Action)
    ensures
        exists|b: Button| action_of(b) == a,
        forall|b: Button, c: Button| action_of(b) == action_of(c) ==> b == c,
{
    let b = match a {
        Action::Next => Button::VolDown,
        Action::Prev => Button::VolUp,
        Action::NextJump => Button::Right,
        Action::PrevJump => Button::Left,
        Action::Select => Button::Confirm,
        Action::Back => Button::Back,
        Action::Menu => Button::Power,
    };
    assert(action_of(b) == a);
}

} // verus!
