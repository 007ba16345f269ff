use plato::input::{Input, InputKey, MouseButton, MousePosition};
use plato::math::Vec2;

#[test]
fn nothing_is_pressed_at_first() {
    let input: Input<MouseButton> = Input::default();
    for b in [MouseButton::Left, MouseButton::Right, MouseButton::Middle] {
        assert!(!input.is_pressed(b));
        assert!(!input.is_just_pressed(b));
    }
}

#[test]
fn press_is_fresh_only_once() {
    let mut input: Input<MouseButton> = Input::default();
    input.press(MouseButton::Left);
    assert!(input.is_pressed(MouseButton::Left));
    assert!(input.is_just_pressed(MouseButton::Left));
    assert!(!input.is_pressed(MouseButton::Right));
    assert!(!input.is_just_pressed(MouseButton::Right));
    input.tick_frame();
    assert!(input.is_pressed(MouseButton::Left));
    assert!(!input.is_just_pressed(MouseButton::Left));
    input.press(MouseButton::Left);
    assert!(input.is_pressed(MouseButton::Left));
    assert!(!input.is_just_pressed(MouseButton::Left));
}

#[test]
fn release_then_press_is_fresh_again() {
    let mut input: Input<MouseButton> = Input::default();
    input.press(MouseButton::Middle);
    input.tick_frame();
    input.release(MouseButton::Middle);
    assert!(!input.is_pressed(MouseButton::Middle));
    input.press(MouseButton::Middle);
    assert!(input.is_just_pressed(MouseButton::Middle));
}

#[test]
fn release_within_the_frame_keeps_the_edge() {
    let mut input: Input<MouseButton> = Input::default();
    input.press(MouseButton::Right);
    input.release(MouseButton::Right);
    assert!(!input.is_pressed(MouseButton::Right));
    assert!(input.is_just_pressed(MouseButton::Right));
    input.tick_frame();
    assert!(!input.is_just_pressed(MouseButton::Right));
}

#[test]
fn set_presses_or_releases() {
    let mut input: Input<MouseButton> = Input::default();
    input.set(MouseButton::Left, true);
    input.set(MouseButton::Right, false);
    assert!(input.is_pressed(MouseButton::Left));
    assert!(input.is_just_pressed(MouseButton::Left));
    assert!(!input.is_pressed(MouseButton::Right));
    input.set(MouseButton::Left, false);
    assert!(!input.is_pressed(MouseButton::Left));
}

#[test]
fn buttons_have_keys_of_their_own() {
    assert_eq!(MouseButton::Left.key_of(), 0);
    assert_eq!(MouseButton::Right.key_of(), 1);
    assert_eq!(MouseButton::Middle.key_of(), 2);
    assert_eq!(MousePosition(Vec2::new(1, 2)).0, Vec2::new(1, 2));
}
