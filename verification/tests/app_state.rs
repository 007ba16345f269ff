use plato::app_state::{state_transition, AppState, NextState, TRANSITION_FRAMES};

#[test]
fn nothing_happens_without_a_request() {
    let mut current = AppState::MainMenu;
    let mut next = NextState(None);
    let mut progress = 0;
    assert_eq!(state_transition(&mut current, &mut next, &mut progress), None);
    assert_eq!(current, AppState::MainMenu);
    assert_eq!(next.0, None);
    assert_eq!(progress, 0);
}

#[test]
fn crossfade_runs_out_and_in() {
    let mut current = AppState::MainMenu;
    let mut next = NextState(Some(AppState::InGame));
    let mut progress = 0;
    for frame in 1..=9u8 {
        assert_eq!(state_transition(&mut current, &mut next, &mut progress), Some(frame));
        assert_eq!(current, AppState::MainMenu);
        assert_eq!(progress, frame);
    }
    // The screen is black: the states are swapped.
    assert_eq!(state_transition(&mut current, &mut next, &mut progress), Some(10));
    assert_eq!(current, AppState::InGame);
    assert_eq!(next.0, Some(AppState::InGame));
    for frame in (1..=9u8).rev() {
        assert_eq!(state_transition(&mut current, &mut next, &mut progress), Some(frame));
        assert_eq!(next.0, Some(AppState::InGame));
    }
    // The screen is clear: the request is dropped.
    assert_eq!(state_transition(&mut current, &mut next, &mut progress), None);
    assert_eq!(progress, 0);
    assert_eq!(next.0, None);
    assert_eq!(current, AppState::InGame);
    assert_eq!(state_transition(&mut current, &mut next, &mut progress), None);
    assert_eq!(TRANSITION_FRAMES, 10);
}

#[test]
fn progress_beyond_the_end_is_brought_back() {
    let mut current = AppState::MainMenu;
    let mut next = NextState(Some(AppState::Quit));
    let mut progress = 200;
    assert_eq!(state_transition(&mut current, &mut next, &mut progress), Some(10));
    assert_eq!(current, AppState::Quit);
    assert_eq!(progress, 10);
}

#[test]
fn request_for_the_current_state_fades_in() {
    let mut current = AppState::InGame;
    let mut next = NextState(Some(AppState::InGame));
    let mut progress = 1;
    assert_eq!(state_transition(&mut current, &mut next, &mut progress), None);
    assert_eq!(next.0, None);
    assert_eq!(progress, 0);
}
