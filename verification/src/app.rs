//! The application: the world of the main menu, the input state, and the
//! frame that advances them.

use vstd::prelude::*;

use crate::app_state::AppState;
use crate::input::{Input, InputKey, InputView, MouseButton, MousePosition};
use crate::math::{Rect, Vec2};
use crate::title_menu::layout::{
    has_menu_shape, lemma_main_menu_shape, lemma_menu_lays_out, lemma_passes_keep_shape,
    WINDOW_LIMIT,
};
use crate::title_menu::{initialize_main_menu_entities, is_main_menu};
use crate::ui::layout::{
    built_in_order, layout, layout_ui, lemma_in_order_never_too_deep, LayoutError,
};
use crate::ui::passes::{
    applied, apply_layout, handle_clicks, lemma_passes_keep_order, quit_clicked, size_ui_roots,
    sized_roots, update_buttons, updated_buttons,
};
use crate::ui::{Components, World};

verus! {

/// The main menu as it runs: its entities, the application state that its
/// buttons change, and the pointer.
pub struct Application {
    pub world: World,
    pub app_state: AppState,
    pub mouse_position: MousePosition,
    pub mouse_buttons: Input<MouseButton>,
    pub keep_running: bool,
}

/// The world after the passes of one frame: the roots take the window
/// bounds, the layout is attached, and the buttons advance. The error of the
/// layout where there is none.
pub open spec fn frame_world(
    nodes: Seq<Components>,
    width: i64,
    height: i64,
    pointer: Vec2,
    input: InputView,
) -> Result<Seq<Components>, LayoutError> {
    let sized = sized_roots(nodes, width, height);
    match layout(sized) {
        Err(e) => Err(e),
        Ok(rects) => Ok(
            updated_buttons(
                applied(sized, rects),
                pointer,
                input.held.contains(MouseButton::Left.key()),
                input.fresh.contains(MouseButton::Left.key()),
            ),
        ),
    }
}

/// Whether an entity has the given caption and a rectangle.
pub open spec fn is_text_rect(c: Components, text: Seq<char>) -> bool {
    c.rect is Some && (c.text matches Some(t) && t.0@ == text)
}

impl Application {
    /// An application that shows the main menu.
    pub fn new() -> (app: Application)
        ensures
            app.world.entities@.len() == 10,
            is_main_menu(app.world.entities@, 0),
            app.app_state == AppState::MainMenu,
            app.mouse_position.0 == (Vec2 { x: 0, y: 0 }),
            app.mouse_buttons@ == InputView::empty(),
            app.keep_running,
            built_in_order(app.world.entities@),
            has_menu_shape(app.world.entities@),
    {
        let mut base = Application::empty();
        initialize_main_menu_entities(&mut base.world);
        proof {
            crate::title_menu::lemma_main_menu_in_order(base.world.entities@);
            lemma_main_menu_shape(base.world.entities@);
        }
        base
    }

    /// An application with an empty world.
    pub fn empty() -> (app: Application)
        ensures
            app.world.entities@ == Seq::<Components>::empty(),
            app.app_state == AppState::MainMenu,
            app.mouse_position.0 == (Vec2 { x: 0, y: 0 }),
            app.mouse_buttons@ == InputView::empty(),
            app.keep_running,
    {
        Application {
            world: World::new(),
            app_state: AppState::MainMenu,
            mouse_position: MousePosition(Vec2 { x: 0, y: 0 }),
            mouse_buttons: Input::default(),
            keep_running: true,
        }
    }

    /// Runs one frame in a window of the given extent.
    ///
    /// Once the application has quit, the frame only clears `keep_running`.
    /// Otherwise the passes run in order: root sizing, layout, button
    /// update, click dispatch. A layout error ends the frame after root
    /// sizing, with no layout attached and the input left as it was. At the
    /// end of every other frame the just-pressed inputs are cleared.
    ///
    /// A world that was built in order stays so, and its frames never fail
    /// for being too deep. A world that holds the main menu keeps the menu's
    /// shape, and its frames never fail in a window up to `WINDOW_LIMIT`.
    pub fn tick(&mut self, screen_width: i64, screen_height: i64) -> (r: Result<(), LayoutError>)
        ensures
            final(self).mouse_position == old(self).mouse_position,
            built_in_order(old(self).world.entities@) ==> built_in_order(
                final(self).world.entities@,
            ) && !(r matches Err(LayoutError::TooDeep(_))),
            has_menu_shape(old(self).world.entities@) && 0 <= screen_width <= WINDOW_LIMIT && 0
                <= screen_height <= WINDOW_LIMIT ==> r is Ok && has_menu_shape(
                final(self).world.entities@,
            ),
            old(self).app_state == AppState::Quit ==> {
                &&& r is Ok
                &&& !final(self).keep_running
                &&& final(self).app_state == AppState::Quit
                &&& final(self).world.entities@ == old(self).world.entities@
                &&& final(self).mouse_buttons@ == old(self).mouse_buttons@.tick()
            },
            old(self).app_state != AppState::Quit ==> {
                &&& final(self).keep_running == old(self).keep_running
                &&& match frame_world(
                    old(self).world.entities@,
                    screen_width,
                    screen_height,
                    old(self).mouse_position.0,
                    old(self).mouse_buttons@,
                ) {
                    Err(e) => {
                        &&& r == Err::<(), LayoutError>(e)
                        &&& final(self).world.entities@ == sized_roots(
                            old(self).world.entities@,
                            screen_width,
                            screen_height,
                        )
                        &&& final(self).app_state == old(self).app_state
                        &&& final(self).mouse_buttons@ == old(self).mouse_buttons@
                    },
                    Ok(nodes) => {
                        &&& r is Ok
                        &&& final(self).world.entities@ == nodes
                        &&& final(self).app_state == if quit_clicked(
                            nodes,
                            old(self).mouse_position.0,
                            old(self).mouse_buttons@.fresh.contains(MouseButton::Left.key()),
                        ) {
                            AppState::Quit
                        } else {
                            old(self).app_state
                        }
                        &&& final(self).mouse_buttons@ == old(self).mouse_buttons@.tick()
                    },
                }
            },
    {
        let ghost before = self.world.entities@;
        let ghost pointer = self.mouse_position.0;
        let ghost held = self.mouse_buttons@.held.contains(MouseButton::Left.key());
        let ghost just_pressed = self.mouse_buttons@.fresh.contains(MouseButton::Left.key());
        match self.app_state {
            AppState::Quit => {
                self.keep_running = false;
            },
            _ => {
                size_ui_roots(&mut self.world, screen_width, screen_height);
                proof {
                    if built_in_order(before) {
                        lemma_passes_keep_order(
                            before,
                            screen_width,
                            screen_height,
                            Seq::empty(),
                            pointer,
                            held,
                            just_pressed,
                        );
                        lemma_in_order_never_too_deep(self.world.entities@);
                    }
                    if has_menu_shape(before) {
                        lemma_passes_keep_shape(
                            before,
                            screen_width,
                            screen_height,
                            Seq::empty(),
                            pointer,
                            held,
                            just_pressed,
                        );
                        if 0 <= screen_width <= WINDOW_LIMIT && 0 <= screen_height <= WINDOW_LIMIT {
                            lemma_menu_lays_out(self.world.entities@, screen_width, screen_height);
                        }
                    }
                }
                let rects = match layout_ui(&self.world) {
                    Ok(rects) => rects,
                    Err(e) => {
                        return Err(e);
                    },
                };
                proof {
                    if built_in_order(before) {
                        let sized = self.world.entities@;
                        lemma_passes_keep_order(
                            sized,
                            screen_width,
                            screen_height,
                            rects@,
                            pointer,
                            held,
                            just_pressed,
                        );
                        lemma_passes_keep_order(
                            applied(sized, rects@),
                            screen_width,
                            screen_height,
                            rects@,
                            pointer,
                            held,
                            just_pressed,
                        );
                    }
                    if has_menu_shape(before) {
                        let sized = self.world.entities@;
                        lemma_passes_keep_shape(
                            sized,
                            screen_width,
                            screen_height,
                            rects@,
                            pointer,
                            held,
                            just_pressed,
                        );
                        lemma_passes_keep_shape(
                            applied(sized, rects@),
                            screen_width,
                            screen_height,
                            rects@,
                            pointer,
                            held,
                            just_pressed,
                        );
                    }
                }
                apply_layout(&mut self.world, &rects);
                update_buttons(&mut self.world, &self.mouse_position, &self.mouse_buttons);
                handle_clicks(
                    &self.world,
                    &mut self.app_state,
                    &self.mouse_position,
                    &self.mouse_buttons,
                );
            },
        }
        // Clear any just-pressed mouse buttons.
        self.mouse_buttons.tick_frame();
        Ok(())
    }

    /// Takes over what the window says: where the pointer is, and which
    /// of the three pointer buttons are down.
    pub fn handle_window_input(&mut self, mouse_pos: Vec2, left: bool, right: bool, middle: bool)
        ensures
            final(self).mouse_position.0 == mouse_pos,
            final(self).mouse_buttons@ == old(self).mouse_buttons@.set(
                MouseButton::Left.key(),
                left,
            ).set(MouseButton::Right.key(), right).set(MouseButton::Middle.key(), middle),
            final(self).world == old(self).world,
            final(self).app_state == old(self).app_state,
            final(self).keep_running == old(self).keep_running,
    {
        self.mouse_position = MousePosition(mouse_pos);
        self.mouse_buttons.set(MouseButton::Left, left);
        self.mouse_buttons.set(MouseButton::Right, right);
        self.mouse_buttons.set(MouseButton::Middle, middle);
    }

    /// The rectangle of the first entity with the given caption that has
    /// one.
    pub fn find_text_rect(&self, text: &str) -> (r: Option<Rect>)
        ensures
            match r {
                Some(rect) => exists|i: int|
                    0 <= i < self.world.entities@.len() && is_text_rect(
                        #[trigger] self.world.entities@[i],
                        text@,
                    ) && self.world.entities@[i].rect == Some(rect) && forall|j: int|
                        0 <= j < i ==> !is_text_rect(#[trigger] self.world.entities@[j], text@),
                None => forall|i: int|
                    0 <= i < self.world.entities@.len() ==> !is_text_rect(
                        #[trigger] self.world.entities@[i],
                        text@,
                    ),
            },
    {
        let wanted = text.to_owned();
        let n = self.world.entities.len();
        let mut i: usize = 0;
        while i < n
            invariant
                i <= n,
                n == self.world.entities@.len(),
                wanted@ == text@,
                forall|j: int| 0 <= j < i ==> !is_text_rect(#[trigger] self.world.entities@[j], text@),
            decreases n - i,
        {
            let node = &self.world.entities[i];
            match (&node.text, &node.rect) {
                (Some(label), Some(rect)) => {
                    if label.0 == wanted {
                        return Some(*rect);
                    }
                },
                _ => {},
            }
            i = i + 1;
        }
        None
    }

    /// Moves the pointer to `pos` and presses the left pointer button.
    pub fn click_pos(&mut self, pos: Vec2)
        ensures
            final(self).mouse_position.0 == pos,
            final(self).mouse_buttons@ == old(self).mouse_buttons@.press(MouseButton::Left.key()),
            final(self).world == old(self).world,
            final(self).app_state == old(self).app_state,
            final(self).keep_running == old(self).keep_running,
    {
        self.mouse_position = MousePosition(pos);
        self.mouse_buttons.press(MouseButton::Left);
    }
}

} // verus!
