use plato::app_state::AppState;
use plato::input::{Input, MouseButton, MousePosition};
use plato::math::{Rect, Vec2};
use plato::ui::button::{
    handle_button_clicked, update_button_state, Button, UIState, ANIMATION_FRAMES,
};

fn rect() -> Rect {
    Rect::new(Vec2::new(10, 10), Vec2::new(100, 50))
}

#[test]
fn a_new_button_is_at_rest() {
    let b = Button::new();
    assert_eq!(b.state, UIState::Normal);
    assert_eq!(b.transition, 0);
    assert_eq!(b.click_pos, Vec2::new(0, 0));
    assert_eq!(b.click_effect_progress, ANIMATION_FRAMES);
    assert_eq!(ANIMATION_FRAMES, 20);
}

#[test]
fn press_latches_through_drag_out() {
    let mut b = Button::new();
    // Frame N: the pointer is inside and the pointer button just went down.
    b.step(true, true, true, Vec2::new(20, 20));
    assert_eq!(b.state, UIState::Click);
    // Frame N + 1: still held, the pointer has left.
    b.step(false, true, false, Vec2::new(500, 500));
    assert_eq!(b.state, UIState::Click);
    b.step(false, true, false, Vec2::new(500, 500));
    assert_eq!(b.state, UIState::Click);
    // Released outside: back to normal.
    b.step(false, false, false, Vec2::new(500, 500));
    assert_eq!(b.state, UIState::Normal);
}

#[test]
fn hover_and_normal_follow_the_pointer() {
    let mut b = Button::new();
    b.step(true, false, false, Vec2::new(20, 20));
    assert_eq!(b.state, UIState::Hover);
    b.step(false, false, false, Vec2::new(0, 0));
    assert_eq!(b.state, UIState::Normal);
    // Held from outside, then dragged in: no press without the edge.
    b.step(false, true, true, Vec2::new(0, 0));
    assert_eq!(b.state, UIState::Normal);
    b.step(true, true, false, Vec2::new(20, 20));
    assert_eq!(b.state, UIState::Hover);
    // Pressed and released inside: hovered again.
    b.step(true, true, true, Vec2::new(20, 20));
    assert_eq!(b.state, UIState::Click);
    b.step(true, false, false, Vec2::new(20, 20));
    assert_eq!(b.state, UIState::Hover);
}

#[test]
fn a_press_records_where_and_restarts_the_click_effect() {
    let mut b = Button::new();
    b.step(true, true, true, Vec2::new(33, 44));
    assert_eq!(b.click_pos, Vec2::new(33, 44));
    assert_eq!(b.click_effect_progress, 1);
    assert_eq!(b.transition, 1);
    // Held: the place stays, the effect moves on.
    b.step(true, true, false, Vec2::new(50, 50));
    assert_eq!(b.click_pos, Vec2::new(33, 44));
    assert_eq!(b.click_effect_progress, 2);
    // The edge is ignored while the button is latched.
    b.step(true, true, true, Vec2::new(60, 60));
    assert_eq!(b.click_pos, Vec2::new(33, 44));
    assert_eq!(b.click_effect_progress, 3);
}

#[test]
fn animations_stop_at_their_ends() {
    let mut b = Button::new();
    for frame in 1..=30u8 {
        b.step(true, false, false, Vec2::new(20, 20));
        assert_eq!(b.transition, frame.min(20));
        assert_eq!(b.click_effect_progress, 20);
    }
    for frame in 1..=30u8 {
        b.step(false, false, false, Vec2::new(0, 0));
        assert_eq!(b.transition, 20u8.saturating_sub(frame));
    }
    b.step(true, true, true, Vec2::new(20, 20));
    for frame in 2..=30u8 {
        b.step(false, false, false, Vec2::new(0, 0));
        assert_eq!(b.click_effect_progress, frame.min(20));
    }
}

#[test]
fn animations_out_of_range_are_brought_back() {
    let mut b = Button::new();
    b.transition = 200;
    b.click_effect_progress = 255;
    b.step(false, false, false, Vec2::new(0, 0));
    assert_eq!(b.transition, 19);
    assert_eq!(b.click_effect_progress, 20);
    b.transition = 200;
    b.step(true, false, false, Vec2::new(0, 0));
    assert_eq!(b.transition, 20);
}

#[test]
fn update_reads_the_left_button_and_the_pointer() {
    let mut b = Button::new();
    let mut buttons: Input<MouseButton> = Input::default();
    update_button_state(&rect(), &mut b, &MousePosition(Vec2::new(10, 10)), &buttons);
    assert_eq!(b.state, UIState::Hover);
    buttons.press(MouseButton::Right);
    update_button_state(&rect(), &mut b, &MousePosition(Vec2::new(10, 10)), &buttons);
    assert_eq!(b.state, UIState::Hover);
    buttons.press(MouseButton::Left);
    update_button_state(&rect(), &mut b, &MousePosition(Vec2::new(109, 59)), &buttons);
    assert_eq!(b.state, UIState::Click);
    assert_eq!(b.click_pos, Vec2::new(109, 59));
    buttons.tick_frame();
    update_button_state(&rect(), &mut b, &MousePosition(Vec2::new(110, 60)), &buttons);
    assert_eq!(b.state, UIState::Click);
    buttons.release(MouseButton::Left);
    update_button_state(&rect(), &mut b, &MousePosition(Vec2::new(110, 60)), &buttons);
    assert_eq!(b.state, UIState::Normal);
}

#[test]
fn click_fires_once_while_held() {
    let mut buttons: Input<MouseButton> = Input::default();
    let pointer = MousePosition(Vec2::new(20, 20));
    let mut fired = 0;
    // Frames N to N + 5, the pointer button held from frame N on.
    for _ in 0..6 {
        buttons.press(MouseButton::Left);
        let mut state = AppState::MainMenu;
        handle_button_clicked(&rect(), &mut state, &pointer, &buttons);
        if state == AppState::Quit {
            fired += 1;
        }
        buttons.tick_frame();
    }
    assert_eq!(fired, 1);
}

#[test]
fn click_needs_the_pointer_inside() {
    let mut buttons: Input<MouseButton> = Input::default();
    buttons.press(MouseButton::Left);
    let mut state = AppState::InGame;
    handle_button_clicked(&rect(), &mut state, &MousePosition(Vec2::new(0, 0)), &buttons);
    assert_eq!(state, AppState::InGame);
    handle_button_clicked(&rect(), &mut state, &MousePosition(Vec2::new(10, 10)), &buttons);
    assert_eq!(state, AppState::Quit);

    let mut other: Input<MouseButton> = Input::default();
    other.press(MouseButton::Middle);
    let mut state = AppState::MainMenu;
    handle_button_clicked(&rect(), &mut state, &MousePosition(Vec2::new(10, 10)), &other);
    assert_eq!(state, AppState::MainMenu);
}
