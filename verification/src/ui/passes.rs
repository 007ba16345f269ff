//! The passes that a frame runs over the world, in this order: the roots
//! take the window bounds, the layout is computed and attached, the buttons
//! advance, and a click on the quit button is acted on.

use vstd::prelude::*;

use crate::app_state::AppState;
use crate::input::{Input, InputKey, MouseButton, MousePosition};
use crate::math::{Rect, Vec2};
use crate::ui::button::{clicked, handle_button_clicked, next_button, update_button_state};
use crate::ui::layout::built_in_order;
use crate::ui::{Components, World};

verus! {

/// The rectangle of a window of the given extent.
pub open spec fn window_rect(width: i64, height: i64) -> Rect {
    Rect { position: Vec2 { x: 0, y: 0 }, size: Vec2 { x: width, y: height } }
}

/// Sets the rectangle of a root to the window bounds.
pub fn size_ui_root(rect: &mut Rect, width: i64, height: i64)
    ensures
        *final(rect) == window_rect(width, height),
{
    rect.position.x = 0;
    rect.position.y = 0;
    rect.size.y = height;
    rect.size.x = width;
}

/// The components with the rectangle replaced.
pub open spec fn with_rect(c: Components, rect: Rect) -> Components {
    Components { rect: Some(rect), ..c }
}

/// An entity after root sizing: a root that has a rectangle takes the window
/// bounds, any other entity stays as it is.
pub open spec fn sized_root(c: Components, width: i64, height: i64) -> Components {
    if c.root is Some && c.rect is Some {
        with_rect(c, window_rect(width, height))
    } else {
        c
    }
}

/// The world after root sizing.
pub open spec fn sized_roots(nodes: Seq<Components>, width: i64, height: i64) -> Seq<Components> {
    Seq::new(nodes.len(), |i: int| sized_root(nodes[i], width, height))
}

/// Gives every root the window bounds as its rectangle.
pub fn size_ui_roots(world: &mut World, width: i64, height: i64)
    ensures
        final(world).entities@ == sized_roots(old(world).entities@, width, height),
{
    let n = world.entities.len();
    let ghost before = world.entities@;
    let mut i: usize = 0;
    while i < n
        invariant
            i <= n,
            n == before.len(),
            world.entities@.len() == n,
            forall|j: int| 0 <= j < i ==> #[trigger] world.entities@[j] == sized_root(before[j], width, height),
            forall|j: int| i <= j < n ==> #[trigger] world.entities@[j] == before[j],
        decreases n - i,
    {
        if world.entities[i].root.is_some() {
            match &mut world.entities[i].rect {
                Some(rect) => {
                    size_ui_root(rect, width, height);
                },
                None => {},
            }
        }
        i = i + 1;
    }
    assert(world.entities@ =~= sized_roots(before, width, height));
}

/// The world with the rectangles of a layout attached: an entity that the
/// layout reached takes its rectangle, any other entity stays as it is.
pub open spec fn applied(nodes: Seq<Components>, rects: Seq<Option<Rect>>) -> Seq<Components> {
    Seq::new(
        nodes.len(),
        |i: int|
            match rects[i] {
                Some(rect) => with_rect(nodes[i], rect),
                None => nodes[i],
            },
    )
}

/// Attaches the rectangles of a layout to the entities.
pub fn apply_layout(world: &mut World, rects: &Vec<Option<Rect>>)
    requires
        rects@.len() == old(world).entities@.len(),
    ensures
        final(world).entities@ == applied(old(world).entities@, rects@),
{
    let n = world.entities.len();
    let ghost before = world.entities@;
    let mut i: usize = 0;
    while i < n
        invariant
            i <= n,
            n == before.len(),
            rects@.len() == n,
            world.entities@.len() == n,
            forall|j: int| 0 <= j < i ==> #[trigger] world.entities@[j] == applied(before, rects@)[j],
            forall|j: int| i <= j < n ==> #[trigger] world.entities@[j] == before[j],
        decreases n - i,
    {
        match rects[i] {
            Some(rect) => {
                world.entities[i].rect = Some(rect);
            },
            None => {},
        }
        i = i + 1;
    }
    assert(world.entities@ =~= applied(before, rects@));
}

/// An entity after the button pass: a button that has a rectangle advances
/// by one frame, any other entity stays as it is.
pub open spec fn updated_button(c: Components, pointer: Vec2, held: bool, just_pressed: bool)
    -> Components {
    match (c.rect, c.button) {
        (Some(rect), Some(button)) => Components {
            button: Some(
                next_button(button, rect.spec_contains(pointer), held, just_pressed, pointer),
            ),
            ..c
        },
        _ => c,
    }
}

/// The world after the button pass.
pub open spec fn updated_buttons(
    nodes: Seq<Components>,
    pointer: Vec2,
    held: bool,
    just_pressed: bool,
) -> Seq<Components> {
    Seq::new(nodes.len(), |i: int| updated_button(nodes[i], pointer, held, just_pressed))
}

/// Advances every button by one frame.
pub fn update_buttons(
    world: &mut World,
    mouse_pos: &MousePosition,
    mouse_btns: &Input<MouseButton>,
)
    ensures
        final(world).entities@ == updated_buttons(
            old(world).entities@,
            mouse_pos.0,
            mouse_btns@.held.contains(MouseButton::Left.key()),
            mouse_btns@.fresh.contains(MouseButton::Left.key()),
        ),
{
    let n = world.entities.len();
    let ghost before = world.entities@;
    let ghost held = mouse_btns@.held.contains(MouseButton::Left.key());
    let ghost just_pressed = mouse_btns@.fresh.contains(MouseButton::Left.key());
    let mut i: usize = 0;
    while i < n
        invariant
            i <= n,
            n == before.len(),
            world.entities@.len() == n,
            held == mouse_btns@.held.contains(MouseButton::Left.key()),
            just_pressed == mouse_btns@.fresh.contains(MouseButton::Left.key()),
            forall|j: int| 0 <= j < i ==> #[trigger] world.entities@[j] == updated_button(before[j], mouse_pos.0, held, just_pressed),
            forall|j: int| i <= j < n ==> #[trigger] world.entities@[j] == before[j],
        decreases n - i,
    {
        match world.entities[i].rect {
            Some(rect) => {
                match &mut world.entities[i].button {
                    Some(button) => {
                        update_button_state(&rect, button, mouse_pos, mouse_btns);
                    },
                    None => {},
                }
            },
            None => {},
        }
        i = i + 1;
    }
    assert(world.entities@ =~= updated_buttons(before, mouse_pos.0, held, just_pressed));
}

/// Whether a frame clicks a quit button: an entity that is marked as such,
/// is a button and has a rectangle, with the pointer inside while the left
/// pointer button went down.
pub open spec fn is_quit_clicked(c: Components, pointer: Vec2, just_pressed: bool) -> bool {
    &&& c.quit is Some
    &&& c.button is Some
    &&& c.rect matches Some(rect) && clicked(rect, pointer, just_pressed)
}

/// Whether a frame clicks some quit button of the world.
pub open spec fn quit_clicked(nodes: Seq<Components>, pointer: Vec2, just_pressed: bool) -> bool {
    exists|i: int| 0 <= i < nodes.len() && is_quit_clicked(#[trigger] nodes[i], pointer, just_pressed)
}

/// Quits the application on the frame in which a quit button is clicked.
pub fn handle_clicks(
    world: &World,
    app_state: &mut AppState,
    mouse_pos: &MousePosition,
    mouse_btns: &Input<MouseButton>,
)
    ensures
        *final(app_state) == if quit_clicked(
            world.entities@,
            mouse_pos.0,
            mouse_btns@.fresh.contains(MouseButton::Left.key()),
        ) {
            AppState::Quit
        } else {
            *old(app_state)
        },
{
    let n = world.entities.len();
    let ghost just_pressed = mouse_btns@.fresh.contains(MouseButton::Left.key());
    let ghost before = *app_state;
    let mut i: usize = 0;
    while i < n
        invariant
            i <= n,
            n == world.entities@.len(),
            just_pressed == mouse_btns@.fresh.contains(MouseButton::Left.key()),
            *app_state == if quit_clicked(world.entities@.take(i as int), mouse_pos.0, just_pressed) {
                AppState::Quit
            } else {
                before
            },
        decreases n - i,
    {
        let node = &world.entities[i];
        proof {
            let shorter = world.entities@.take(i as int);
            let longer = world.entities@.take(i + 1);
            if quit_clicked(shorter, mouse_pos.0, just_pressed) {
                let j = choose|j: int| 0 <= j < shorter.len() && is_quit_clicked(#[trigger] shorter[j], mouse_pos.0, just_pressed);
                assert(is_quit_clicked(longer[j], mouse_pos.0, just_pressed));
            }
            if is_quit_clicked(world.entities@[i as int], mouse_pos.0, just_pressed) {
                assert(is_quit_clicked(longer[i as int], mouse_pos.0, just_pressed));
            }
            if quit_clicked(longer, mouse_pos.0, just_pressed) {
                let j = choose|j: int| 0 <= j < longer.len() && is_quit_clicked(#[trigger] longer[j], mouse_pos.0, just_pressed);
                if j < i {
                    assert(is_quit_clicked(shorter[j], mouse_pos.0, just_pressed));
                }
            }
        }
        if node.quit.is_some() && node.button.is_some() {
            match &node.rect {
                Some(rect) => {
                    handle_button_clicked(rect, app_state, mouse_pos, mouse_btns);
                },
                None => {},
            }
        }
        i = i + 1;
    }
    assert(world.entities@.take(n as int) == world.entities@);
}

/// The passes leave every container as it is, so a world whose containers
/// list only entities that were added before them stays such a world.
pub proof fn lemma_passes_keep_order(
    nodes: Seq<Components>,
    width: i64,
    height: i64,
    rects: Seq<Option<Rect>>,
    pointer: Vec2,
    held: bool,
    just_pressed: bool,
)
    requires
        built_in_order(nodes),
    ensures
        built_in_order(sized_roots(nodes, width, height)),
        built_in_order(applied(nodes, rects)),
        built_in_order(updated_buttons(nodes, pointer, held, just_pressed)),
{
    let sized = sized_roots(nodes, width, height);
    let placed = applied(nodes, rects);
    let updated = updated_buttons(nodes, pointer, held, just_pressed);
    assert forall|c: int, k: int|
        0 <= c < sized.len() && sized[c].container is Some && 0 <= k
            < sized[c].container->Some_0.children@.len() implies (
    #[trigger] sized[c].container->Some_0.children@[k]) < c by {
        assert(sized[c].container == nodes[c].container);
        assert(nodes[c].container->Some_0.children@[k] < c);
    }
    assert forall|c: int, k: int|
        0 <= c < placed.len() && placed[c].container is Some && 0 <= k
            < placed[c].container->Some_0.children@.len() implies (
    #[trigger] placed[c].container->Some_0.children@[k]) < c by {
        assert(placed[c].container == nodes[c].container);
        assert(nodes[c].container->Some_0.children@[k] < c);
    }
    assert forall|c: int, k: int|
        0 <= c < updated.len() && updated[c].container is Some && 0 <= k
            < updated[c].container->Some_0.children@.len() implies (
    #[trigger] updated[c].container->Some_0.children@[k]) < c by {
        assert(updated[c].container == nodes[c].container);
        assert(nodes[c].container->Some_0.children@[k] < c);
    }
}

} // verus!
