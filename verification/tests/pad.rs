use tato::pad::button::{AnyButton, Button};
use tato::pad::dpad::DPad;

#[test]
fn press_and_release() {
    let mut pad = DPad::new();
    assert!(pad.is_up(Button::A));
    pad.set_state(Button::A, true);
    assert!(pad.is_down(Button::A));
    assert!(pad.is_just_pressed(Button::A));
    assert!(pad.is_any_down(AnyButton::Face));
    assert!(!pad.is_any_down(AnyButton::Direction));
    pad.copy_current_to_previous_state();
    assert!(!pad.is_just_pressed(Button::A));
    pad.set_state(Button::A, false);
    assert!(pad.is_just_released(Button::A));
    assert!(pad.is_any_just_released(AnyButton::Any));
}

#[test]
fn no_diagonals_when_not_allowed() {
    let mut pad = DPad::new();
    pad.allow_diagonals = false;
    pad.set_state(Button::Left, true);
    pad.set_state(Button::Up, true);
    // A vertical press while horizontal is held (and vertical was not held before) is ignored.
    assert!(pad.is_down(Button::Left));
    assert!(!pad.is_down(Button::Up));
}

#[test]
fn clear_releases_everything() {
    let mut pad = DPad::new();
    pad.set_state(Button::Start, true);
    pad.clear();
    assert!(!pad.is_any_down(AnyButton::Any));
}
