//! The interaction state machine of a button: hover, press and click, with
//! the two animations that follow them.

use vstd::prelude::*;

use crate::app_state::AppState;
use crate::input::{Input, InputKey, InputView, MouseButton, MousePosition};
use crate::math::{Rect, Vec2};

verus! {

/// How the pointer is interacting with a button.
#[derive(PartialEq, Eq, Copy, Clone, Debug, Structural)]
pub enum UIState {
    Normal,
    Hover,
    /// Pressed: the pointer button went down inside the button and has been
    /// held since.
    Click,
}

/// The number of frames that an animation of a button takes. The progress of
/// an animation counts these steps, from 0 to `ANIMATION_FRAMES`.
pub const ANIMATION_FRAMES: u8 = 20;

/// A clickable element.
#[derive(Copy, Clone, Debug, PartialEq, Eq, Structural)]
pub struct Button {
    pub state: UIState,
    /// How far the hover overlay has swept in.
    pub transition: u8,
    /// Where the pointer was when the button was last pressed.
    pub click_pos: Vec2,
    /// How far the click effect has spread; `ANIMATION_FRAMES` when it is over.
    pub click_effect_progress: u8,
}

/// Marks the button that quits the application.
pub struct QuitButton;

/// The state of a button after a frame.
///
/// A pressed button stays pressed for as long as the pointer button is held,
/// wherever the pointer is. Otherwise the button is pressed when the pointer
/// button went down this frame inside it, hovered when the pointer is inside
/// it, and normal when the pointer is outside.
pub open spec fn next_state(state: UIState, inside: bool, held: bool, just_pressed: bool)
    -> UIState {
    if held && state == UIState::Click {
        UIState::Click
    } else if inside {
        if just_pressed {
            UIState::Click
        } else {
            UIState::Hover
        }
    } else {
        UIState::Normal
    }
}

/// Whether a frame presses the button anew.
pub open spec fn pressed_anew(state: UIState, inside: bool, held: bool, just_pressed: bool)
    -> bool {
    !(held && state == UIState::Click) && inside && just_pressed
}

/// One step up, stopping at `ANIMATION_FRAMES`.
pub open spec fn step_up(progress: u8) -> u8 {
    if progress >= ANIMATION_FRAMES {
        ANIMATION_FRAMES
    } else {
        (progress + 1) as u8
    }
}

/// One step down from at most `ANIMATION_FRAMES`, stopping at 0.
pub open spec fn step_down(progress: u8) -> u8 {
    if progress == 0 {
        0
    } else if progress > ANIMATION_FRAMES {
        (ANIMATION_FRAMES - 1) as u8
    } else {
        (progress - 1) as u8
    }
}

/// The button after a frame in which the pointer is at `pointer`.
///
/// The hover overlay moves one step in while the button is hovered or
/// pressed, and one step out otherwise. The click effect starts over when the
/// button is pressed anew, and moves one step on in every frame until it is
/// over.
pub open spec fn next_button(
    button: Button,
    inside: bool,
    held: bool,
    just_pressed: bool,
    pointer: Vec2,
) -> Button {
    let state = next_state(button.state, inside, held, just_pressed);
    let anew = pressed_anew(button.state, inside, held, just_pressed);
    Button {
        state,
        transition: if state == UIState::Normal {
            step_down(button.transition)
        } else {
            step_up(button.transition)
        },
        click_pos: if anew {
            pointer
        } else {
            button.click_pos
        },
        click_effect_progress: step_up(
            if anew {
                0
            } else {
                button.click_effect_progress
            },
        ),
    }
}

fn up(progress: u8) -> (r: u8)
    ensures
        r == step_up(progress),
{
    if progress >= ANIMATION_FRAMES {
        ANIMATION_FRAMES
    } else {
        progress + 1
    }
}

fn down(progress: u8) -> (r: u8)
    ensures
        r == step_down(progress),
{
    if progress == 0 {
        0
    } else if progress > ANIMATION_FRAMES {
        ANIMATION_FRAMES - 1
    } else {
        progress - 1
    }
}

impl Button {
    /// A button at rest: normal, with the overlay out and no click effect
    /// under way.
    pub fn new() -> (b: Button)
        ensures
            b == (Button {
                state: UIState::Normal,
                transition: 0,
                click_pos: Vec2 { x: 0, y: 0 },
                click_effect_progress: ANIMATION_FRAMES,
            }),
    {
        Button {
            state: UIState::Normal,
            transition: 0,
            click_pos: Vec2 { x: 0, y: 0 },
            click_effect_progress: ANIMATION_FRAMES,
        }
    }

    /// Advances the button by one frame, given whether the pointer is inside
    /// the button, whether the pointer button is held, whether it went down
    /// this frame, and where the pointer is.
    pub fn step(&mut self, inside: bool, held: bool, just_pressed: bool, pointer: Vec2)
        ensures
            *final(self) == next_button(*old(self), inside, held, just_pressed, pointer),
    {
        if held && self.state == UIState::Click {
            // Latched: the state does not change.
        } else if inside {
            if just_pressed {
                self.state = UIState::Click;
                self.click_pos = pointer;
                self.click_effect_progress = 0;
            } else {
                self.state = UIState::Hover;
            }
        } else {
            self.state = UIState::Normal;
        }
        match self.state {
            UIState::Normal => {
                self.transition = down(self.transition);
            },
            UIState::Hover | UIState::Click => {
                self.transition = up(self.transition);
            },
        }
        self.click_effect_progress = up(self.click_effect_progress);
    }
}

/// Advances a button by one frame from the pointer's position and the state
/// of the left pointer button.
pub fn update_button_state(
    rect: &Rect,
    button: &mut Button,
    mouse_pos: &MousePosition,
    mouse_btns: &Input<MouseButton>,
)
    ensures
        *final(button) == next_button(
            *old(button),
            rect.spec_contains(mouse_pos.0),
            mouse_btns@.held.contains(MouseButton::Left.key()),
            mouse_btns@.fresh.contains(MouseButton::Left.key()),
            mouse_pos.0,
        ),
{
    let inside = rect.contains(mouse_pos.0);
    let held = mouse_btns.is_pressed(MouseButton::Left);
    let just_pressed = mouse_btns.is_just_pressed(MouseButton::Left);
    button.step(inside, held, just_pressed, mouse_pos.0);
}

/// Whether a frame clicks a button with the given rectangle: the left pointer
/// button went down this frame, with the pointer inside.
pub open spec fn clicked(rect: Rect, pointer: Vec2, just_pressed: bool) -> bool {
    just_pressed && rect.spec_contains(pointer)
}

/// Quits the application on the frame in which the quit button is clicked.
pub fn handle_button_clicked(
    rect: &Rect,
    app_state: &mut AppState,
    mouse_pos: &MousePosition,
    mouse_btns: &Input<MouseButton>,
)
    ensures
        *final(app_state) == if clicked(
            *rect,
            mouse_pos.0,
            mouse_btns@.fresh.contains(MouseButton::Left.key()),
        ) {
            AppState::Quit
        } else {
            *old(app_state)
        },
{
    if mouse_btns.is_just_pressed(MouseButton::Left) && rect.contains(mouse_pos.0) {
        *app_state = AppState::Quit;
    }
}

/// A button that is pressed stays pressed while the pointer button is held,
/// also when the pointer leaves it: after a frame with the pointer inside and
/// the pointer button just pressed, a frame with the pointer button held
/// leaves the button pressed wherever the pointer is.
pub proof fn lemma_press_latches(
    state: UIState,
    held_first: bool,
    inside_second: bool,
    just_pressed_second: bool,
)
    ensures
        next_state(state, true, held_first, true) == UIState::Click,
        next_state(
            next_state(state, true, held_first, true),
            inside_second,
            true,
            just_pressed_second,
        ) == UIState::Click,
{
}

/// Both animations stay within their range whatever the button held before.
pub proof fn lemma_animations_in_range(
    button: Button,
    inside: bool,
    held: bool,
    just_pressed: bool,
    pointer: Vec2,
)
    ensures
        next_button(button, inside, held, just_pressed, pointer).transition <= ANIMATION_FRAMES,
        next_button(button, inside, held, just_pressed, pointer).click_effect_progress
            <= ANIMATION_FRAMES,
{
}

/// The click effect never runs backwards unless the button is pressed anew,
/// and once it is over it stays over.
pub proof fn lemma_click_effect_monotonic(
    button: Button,
    inside: bool,
    held: bool,
    just_pressed: bool,
    pointer: Vec2,
)
    requires
        button.click_effect_progress <= ANIMATION_FRAMES,
        !pressed_anew(button.state, inside, held, just_pressed),
    ensures
        next_button(button, inside, held, just_pressed, pointer).click_effect_progress
            >= button.click_effect_progress,
        button.click_effect_progress == ANIMATION_FRAMES ==> next_button(
            button,
            inside,
            held,
            just_pressed,
            pointer,
        ).click_effect_progress == ANIMATION_FRAMES,
{
}

/// In how many of the next `frames` frames a button with the given rectangle
/// is clicked, when the pointer rests at `pointer` and the left pointer button
/// is seen down at the start of each of them.
pub open spec fn clicks_while_held(v: InputView, rect: Rect, pointer: Vec2, frames: nat) -> nat
    decreases frames,
{
    if frames == 0 {
        0
    } else {
        let during = v.press(MouseButton::Left.key());
        let here: nat = if clicked(rect, pointer, during.fresh.contains(MouseButton::Left.key())) {
            1
        } else {
            0
        };
        here + clicks_while_held(during.tick(), rect, pointer, (frames - 1) as nat)
    }
}

/// Once the left pointer button is held, holding it on clicks nothing.
pub proof fn lemma_held_never_clicks(v: InputView, rect: Rect, pointer: Vec2, frames: nat)
    requires
        v.held.contains(MouseButton::Left.key()),
        !v.fresh.contains(MouseButton::Left.key()),
    ensures
        clicks_while_held(v, rect, pointer, frames) == 0,
    decreases frames,
{
    if frames > 0 {
        lemma_held_never_clicks(
            v.press(MouseButton::Left.key()).tick(),
            rect,
            pointer,
            (frames - 1) as nat,
        );
    }
}

/// A click fires once, not for as long as the pointer button is held: when
/// the left pointer button goes down inside a button and is held for any
/// number of frames, the button is clicked in exactly one of them.
pub proof fn lemma_click_fires_once(v: InputView, rect: Rect, pointer: Vec2, frames: nat)
    requires
        rect.spec_contains(pointer),
        !v.held.contains(MouseButton::Left.key()),
        !v.fresh.contains(MouseButton::Left.key()),
        frames >= 1,
    ensures
        clicks_while_held(v, rect, pointer, frames) == 1,
{
    lemma_held_never_clicks(
        v.press(MouseButton::Left.key()).tick(),
        rect,
        pointer,
        (frames - 1) as nat,
    );
}

} // verus!
