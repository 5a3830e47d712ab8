use pulp_os::board::action::{Action, ActionEvent, ButtonMapper};
use pulp_os::board::button::Button;
use pulp_os::drivers::input::Event;

#[test]
fn each_button_has_its_action() {
    let m = ButtonMapper::new();
    assert_eq!(m.map_button(Button::VolDown), Action::Next);
    assert_eq!(m.map_button(Button::VolUp), Action::Prev);
    assert_eq!(m.map_button(Button::Right), Action::NextJump);
    assert_eq!(m.map_button(Button::Left), Action::PrevJump);
    assert_eq!(m.map_button(Button::Confirm), Action::Select);
    assert_eq!(m.map_button(Button::Back), Action::Back);
    assert_eq!(m.map_button(Button::Power), Action::Menu);
}

#[test]
fn events_keep_their_kind() {
    let m = ButtonMapper::default();
    let press = m.map_event(Event::Press(Button::Left));
    assert_eq!(press, ActionEvent::Press(Action::PrevJump));
    assert!(press.is_press() && !press.is_repeat() && press.is_press_or_repeat());
    let release = m.map_event(Event::Release(Button::Back));
    assert_eq!(release, ActionEvent::Release(Action::Back));
    assert!(!release.is_press() && !release.is_press_or_repeat());
    let long = m.map_event(Event::LongPress(Button::Power));
    assert_eq!(long, ActionEvent::LongPress(Action::Menu));
    assert_eq!(long.action(), Action::Menu);
    let repeat = m.map_event(Event::Repeat(Button::VolDown));
    assert_eq!(repeat, ActionEvent::Repeat(Action::Next));
    assert!(repeat.is_repeat() && repeat.is_press_or_repeat());
    assert_eq!(repeat.action(), Action::Next);
}
