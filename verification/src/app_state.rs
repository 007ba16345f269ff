//! The state of the application and the crossfade between two states.

use vstd::prelude::*;

verus! {

/// What the application is showing.
#[derive(PartialEq, Eq, Copy, Clone, Debug, Structural)]
pub enum AppState {
    MainMenu,
    InGame,
    Quit,
}

/// The state that the application is changing to, if any.
pub struct NextState(pub Option<AppState>);

/// The number of frames that fading out, or fading in, takes. The progress of
/// a transition counts these steps: 0 is clear, `TRANSITION_FRAMES` is black.
pub const TRANSITION_FRAMES: u8 = 10;

/// What one frame of a transition leaves behind.
pub struct TransitionStep {
    pub current: AppState,
    pub next: Option<AppState>,
    pub progress: u8,
    /// The opacity of the black overlay to draw over the frame, in steps of
    /// `TRANSITION_FRAMES`; `None` where nothing is drawn.
    pub overlay: Option<u8>,
}

/// One frame of the crossfade.
///
/// With no state requested nothing happens. While the requested state differs
/// from the current one the screen fades out by one step, and the states are
/// swapped once it is black. After that it fades in by one step per frame,
/// and the request is dropped once the screen is clear.
pub open spec fn transition_step(current: AppState, next: Option<AppState>, progress: u8)
    -> TransitionStep {
    match next {
        None => TransitionStep { current, next, progress, overlay: None },
        Some(target) => if target != current {
            let darker = if progress >= TRANSITION_FRAMES {
                TRANSITION_FRAMES
            } else {
                (progress + 1) as u8
            };
            TransitionStep {
                current: if darker == TRANSITION_FRAMES {
                    target
                } else {
                    current
                },
                next,
                progress: darker,
                overlay: Some(darker),
            }
        } else {
            let lighter = if progress == 0 {
                0u8
            } else {
                (progress - 1) as u8
            };
            TransitionStep {
                current,
                next: if lighter > 0 {
                    next
                } else {
                    None
                },
                progress: lighter,
                overlay: if lighter > 0 {
                    Some(lighter)
                } else {
                    None
                },
            }
        },
    }
}

/// Advances the crossfade by one frame and returns the opacity of the overlay
/// that the caller draws over the whole screen, if any.
pub fn state_transition(
    current_state: &mut AppState,
    next_state: &mut NextState,
    progress: &mut u8,
) -> (overlay: Option<u8>)
    ensures
        (TransitionStep {
            current: *final(current_state),
            next: final(next_state).0,
            progress: *final(progress),
            overlay,
        }) == transition_step(*old(current_state), old(next_state).0, *old(progress)),
{
    if let Some(next) = next_state.0 {
        if next != *current_state {
            if *progress >= TRANSITION_FRAMES {
                *progress = TRANSITION_FRAMES;
            } else {
                *progress = *progress + 1;
            }
            if *progress == TRANSITION_FRAMES {
                *current_state = next;
            }
            Some(*progress)
        } else {
            if *progress > 0 {
                *progress = *progress - 1;
            }
            if *progress > 0 {
                Some(*progress)
            } else {
                next_state.0 = None;
                None
            }
        }
    } else {
        None
    }
}

} // verus!
