//! The pressed and just-pressed state of a set of inputs.

use std::collections::HashSet;
use std::marker::PhantomData;

use vstd::prelude::*;

use crate::math::Vec2;

verus! {

broadcast use vstd::std_specs::hash::group_hash_axioms;

/// Where the pointer is, in display space.
pub struct MousePosition(pub Vec2);

/// A button of the pointer.
#[derive(PartialEq, Copy, Clone, Eq, Hash, Debug, Structural)]
pub enum MouseButton {
    Left,
    Right,
    Middle,
}

/// An input that [`Input`] can track: each value has a number of its own.
pub trait InputKey: Copy {
    /// The number that stands for the input.
    spec fn key(self) -> u64;

    /// Computes [`InputKey::key`].
    fn key_of(&self) -> (k: u64)
        ensures
            k == self.key(),
    ;
}

impl InputKey for MouseButton {
    open spec fn key(self) -> u64 {
        match self {
            MouseButton::Left => 0,
            MouseButton::Right => 1,
            MouseButton::Middle => 2,
        }
    }

    fn key_of(&self) -> (k: u64) {
        match self {
            MouseButton::Left => 0,
            MouseButton::Right => 1,
            MouseButton::Middle => 2,
        }
    }
}

/// What an [`Input`] holds, by the keys of the inputs.
pub struct InputView {
    /// The inputs that are held.
    pub held: Set<u64>,
    /// The inputs that went down since the last frame tick.
    pub fresh: Set<u64>,
}

impl InputView {
    /// Nothing held, nothing just pressed.
    pub open spec fn empty() -> InputView {
        InputView { held: Set::empty(), fresh: Set::empty() }
    }

    /// After the input with key `k` is seen down: it is held, and it is
    /// just pressed if it was not held before.
    pub open spec fn press(self, k: u64) -> InputView {
        InputView {
            held: self.held.insert(k),
            fresh: if self.held.contains(k) {
                self.fresh
            } else {
                self.fresh.insert(k)
            },
        }
    }

    /// After the input with key `k` is seen up: it is not held.
    pub open spec fn release(self, k: u64) -> InputView {
        InputView { held: self.held.remove(k), fresh: self.fresh }
    }

    /// After the end of a frame: nothing is just pressed.
    pub open spec fn tick(self) -> InputView {
        InputView { held: self.held, fresh: Set::empty() }
    }

    /// After the input with key `k` is seen down or up.
    pub open spec fn set(self, k: u64, down: bool) -> InputView {
        if down {
            self.press(k)
        } else {
            self.release(k)
        }
    }

    /// In how many of the next `frames` frames the input with key `k` is
    /// just pressed, when it is seen down at the start of each of them.
    pub open spec fn presses_while_held(self, k: u64, frames: nat) -> nat
        decreases frames,
    {
        if frames == 0 {
            0
        } else {
            let during = self.press(k);
            let here: nat = if during.fresh.contains(k) {
                1
            } else {
                0
            };
            here + during.tick().presses_while_held(k, (frames - 1) as nat)
        }
    }
}

/// An input that is already held is not pressed again by being held on.
pub proof fn lemma_held_never_fresh(v: InputView, k: u64, frames: nat)
    requires
        v.held.contains(k),
        !v.fresh.contains(k),
    ensures
        v.presses_while_held(k, frames) == 0,
    decreases frames,
{
    if frames > 0 {
        lemma_held_never_fresh(v.press(k).tick(), k, (frames - 1) as nat);
    }
}

/// An input that goes down and is then held for any number of frames is
/// just pressed in exactly one of them: the first.
pub proof fn lemma_pressed_once(v: InputView, k: u64, frames: nat)
    requires
        !v.held.contains(k),
        !v.fresh.contains(k),
        frames >= 1,
    ensures
        v.press(k).fresh.contains(k),
        v.presses_while_held(k, frames) == 1,
{
    lemma_held_never_fresh(v.press(k).tick(), k, (frames - 1) as nat);
}

/// Which inputs are held, and which of them went down since the last call of
/// [`Input::tick_frame`].
pub struct Input<T> {
    pressed: HashSet<u64>,
    just_pressed: HashSet<u64>,
    marker: PhantomData<T>,
}

impl<T> View for Input<T> {
    type V = InputView;

    closed spec fn view(&self) -> InputView {
        InputView { held: self.pressed@, fresh: self.just_pressed@ }
    }
}

impl<T> Default for Input<T> {
    fn default() -> (input: Self)
        ensures
            input@ == InputView::empty(),
    {
        Input { pressed: HashSet::new(), just_pressed: HashSet::new(), marker: PhantomData }
    }
}

impl<T: InputKey> Input<T> {
    /// Records that `input` is down. It counts as just pressed only if it was
    /// not held before.
    pub fn press(&mut self, input: T)
        ensures
            final(self)@ == old(self)@.press(input.key()),
    {
        let k = input.key_of();
        let newly_pressed = self.pressed.insert(k);
        if newly_pressed {
            self.just_pressed.insert(k);
        }
    }

    /// Records that `input` is up.
    pub fn release(&mut self, input: T)
        ensures
            final(self)@ == old(self)@.release(input.key()),
    {
        let k = input.key_of();
        self.pressed.remove(&k);
    }

    /// Clears what was just pressed: the frame is over.
    pub fn tick_frame(&mut self)
        ensures
            final(self)@ == old(self)@.tick(),
    {
        self.just_pressed.clear();
    }

    /// Whether `input` is held.
    pub fn is_pressed(&self, input: T) -> (r: bool)
        ensures
            r == self@.held.contains(input.key()),
    {
        let k = input.key_of();
        self.pressed.contains(&k)
    }

    /// Whether `input` went down since the last frame tick.
    pub fn is_just_pressed(&self, input: T) -> (r: bool)
        ensures
            r == self@.fresh.contains(input.key()),
    {
        let k = input.key_of();
        self.just_pressed.contains(&k)
    }

    /// Records that `input` is down or up.
    pub fn set(&mut self, input: T, down: bool)
        ensures
            final(self)@ == old(self)@.set(input.key(), down),
    {
        if down {
            self.press(input);
        } else {
            self.release(input);
        }
    }
}

} // verus!
