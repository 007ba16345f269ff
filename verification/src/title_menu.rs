//! The main menu: a title above a column of buttons.

use vstd::prelude::*;

pub mod layout;

use crate::math::{Rect, Vec2, PIXEL};
use crate::ui::button::QuitButton;
use crate::ui::layout::built_in_order;
use crate::ui::{
    is_fresh_button, spawn_button, Components, Entity, Label, UIContainer, UIRoot, UISize, World,
};

verus! {

/// Whether `c` has a size and nothing else.
pub open spec fn is_plain(c: Components, size: UISize) -> bool {
    &&& c.size == Some(size)
    &&& c.rect is None
    &&& c.constraint is None
    &&& c.container is None
    &&& c.root is None
    &&& c.label is None
    &&& c.button is None
    &&& c.text is None
    &&& c.quit is None
}

/// Whether `c` is a label of the given text and font size that grows with
/// weight one.
pub open spec fn is_title(c: Components, text: Seq<char>, font_size: u16) -> bool {
    &&& c.size == Some(UISize::Grow(1))
    &&& c.label matches Some(l) && l.text@ == text && l.font_size == font_size
    &&& c.rect is None
    &&& c.constraint is None
    &&& c.container is None
    &&& c.root is None
    &&& c.button is None
    &&& c.text is None
    &&& c.quit is None
}

/// Whether `c` is a column of the given children with the default margin and
/// gap, and with the given size.
pub open spec fn is_section(c: Components, size: UISize, children: Seq<Entity>) -> bool {
    &&& c.size == Some(size)
    &&& c.container matches Some(column) && column.children@ == children && column.margin == 4
        * PIXEL && column.gap == 4 * PIXEL
    &&& c.rect is None
    &&& c.constraint is None
    &&& c.root is None
    &&& c.label is None
    &&& c.button is None
    &&& c.text is None
    &&& c.quit is None
}

/// Whether `c` is a root column of the given children with the default
/// margin and gap, and an empty rectangle.
pub open spec fn is_menu_root(c: Components, children: Seq<Entity>) -> bool {
    &&& c.root is Some
    &&& c.container matches Some(column) && column.children@ == children && column.margin == 4
        * PIXEL && column.gap == 4 * PIXEL
    &&& c.rect == Some(Rect { position: Vec2 { x: 0, y: 0 }, size: Vec2 { x: 0, y: 0 } })
    &&& c.size is None
    &&& c.constraint is None
    &&& c.label is None
    &&& c.button is None
    &&& c.text is None
    &&& c.quit is None
}

/// Whether `c` is a button at rest with the given caption that quits the
/// application.
pub open spec fn is_quit_button(c: Components, label: Seq<char>) -> bool {
    c.quit is Some && is_fresh_button(Components { quit: None, ..c }, label)
}

/// Whether the ten entities from `base` on are the main menu.
///
/// The root stacks the title above the body, one to nine. The body stacks a
/// spacer, the button section and another spacer, one to two to two. The
/// button section stacks the two buttons between two spacers.
pub open spec fn is_main_menu(nodes: Seq<Components>, base: int) -> bool {
    &&& 0 <= base
    &&& nodes.len() >= base + 10
    &&& is_title(nodes[base], "Transcendent Table Tennis"@, 32)
    &&& is_plain(nodes[base + 1], UISize::Grow(1))
    &&& is_plain(nodes[base + 2], UISize::Grow(1))
    &&& is_fresh_button(nodes[base + 3], "Play Online"@)
    &&& is_quit_button(nodes[base + 4], "Quit"@)
    &&& is_plain(nodes[base + 5], UISize::Grow(1))
    &&& is_section(
        nodes[base + 6],
        UISize::Grow(2),
        seq![(base + 2) as usize, (base + 3) as usize, (base + 4) as usize, (base + 5) as usize],
    )
    &&& is_plain(nodes[base + 7], UISize::Grow(2))
    &&& is_section(
        nodes[base + 8],
        UISize::Grow(9),
        seq![(base + 1) as usize, (base + 6) as usize, (base + 7) as usize],
    )
    &&& is_menu_root(nodes[base + 9], seq![base as usize, (base + 8) as usize])
}

fn section(size: UISize, container: UIContainer) -> (c: Components)
    ensures
        c.size == Some(size),
        c.container == Some(container),
        c.rect is None,
        c.constraint is None,
        c.root is None,
        c.label is None,
        c.button is None,
        c.text is None,
        c.quit is None,
{
    let mut c = Components::sized(size);
    c.container = Some(container);
    c
}

/// Adds the entities of the main menu to the world.
pub fn initialize_main_menu_entities(world: &mut World)
    ensures
        final(world).entities@.len() == old(world).entities@.len() + 10,
        final(world).entities@.take(old(world).entities@.len() as int) == old(world).entities@,
        is_main_menu(final(world).entities@, old(world).entities@.len() as int),
{
    let ghost before = world.entities@;
    let mut root_container = UIContainer::empty();

    let mut title = Components::sized(UISize::Grow(1));
    title.label = Some(Label::new("Transcendent Table Tennis".to_owned(), 32));
    let c1 = world.push(title);

    let mut child_container = UIContainer::empty();

    let cc1 = world.push(Components::sized(UISize::Grow(1)));

    let mut button_container = UIContainer::empty();

    let spacer_1 = world.push(Components::sized(UISize::Grow(1)));

    let multiplayer_button = spawn_button(world, "Play Online");
    let quit_button = spawn_button(world, "Quit");
    world.entities[quit_button].quit = Some(QuitButton);

    let spacer_2 = world.push(Components::sized(UISize::Grow(1)));

    button_container.add_child(spacer_1);
    button_container.add_child(multiplayer_button);
    button_container.add_child(quit_button);
    button_container.add_child(spacer_2);

    let button_section = world.push(section(UISize::Grow(2), button_container));
    let cc3 = world.push(Components::sized(UISize::Grow(2)));

    child_container.add_child(cc1);
    child_container.add_child(button_section);
    child_container.add_child(cc3);

    let c2 = world.push(section(UISize::Grow(9), child_container));

    root_container.add_child(c1);
    root_container.add_child(c2);

    let mut root = Components::none();
    root.root = Some(UIRoot);
    root.container = Some(root_container);
    root.rect = Some(Rect { position: Vec2 { x: 0, y: 0 }, size: Vec2 { x: 0, y: 0 } });
    world.push(root);

    proof {
        let nodes = world.entities@;
        let base = before.len() as int;
        assert(nodes.take(base) =~= before);
        assert(nodes[base + 6].container->Some_0.children@ =~= seq![
            (base + 2) as usize,
            (base + 3) as usize,
            (base + 4) as usize,
            (base + 5) as usize,
        ]);
        assert(nodes[base + 8].container->Some_0.children@ =~= seq![
            (base + 1) as usize,
            (base + 6) as usize,
            (base + 7) as usize,
        ]);
        assert(nodes[base + 9].container->Some_0.children@ =~= seq![
            base as usize,
            (base + 8) as usize,
        ]);
    }
}

/// The main menu lists every entity after the entities that it contains: a
/// world that holds the main menu and nothing else is built in order.
pub proof fn lemma_main_menu_in_order(nodes: Seq<Components>)
    requires
        nodes.len() == 10,
        is_main_menu(nodes, 0),
    ensures
        built_in_order(nodes),
{
    assert forall|c: int, k: int|
        0 <= c < nodes.len() && nodes[c].container is Some && 0 <= k
            < nodes[c].container->Some_0.children@.len() implies (
    #[trigger] nodes[c].container->Some_0.children@[k]) < c by {
        assert(c == 6 || c == 8 || c == 9);
    }
}

} // verus!
