//! The UI entities: containers, sizes, constraints, labels and buttons, and
//! the world that stores them.

use vstd::prelude::*;

use crate::math::{Rect, Vec2, PIXEL};
use crate::ui::button::ANIMATION_FRAMES;
pub use crate::ui::button::{Button, QuitButton, UIState};

pub mod button;
pub mod draw;
pub mod layout;
pub mod passes;

verus! {

/// Identifies an entity of a [`World`]: its index in the world.
pub type Entity = usize;

/// Marks the root that contains all further containers of a layout. Its
/// rectangle is set to the window bounds before every layout pass.
pub struct UIRoot;

/// Container for UI elements used in flexible layouts: a column of children,
/// stacked from the top in insertion order.
pub struct UIContainer {
    /// The children, top to bottom.
    pub children: Vec<Entity>,
    /// Inset on all four sides before space is handed out.
    pub margin: i64,
    /// Spacing between consecutive children.
    pub gap: i64,
}

impl UIContainer {
    /// A container without children, with a margin and a gap of four pixels.
    pub fn empty() -> (c: UIContainer)
        ensures
            c.children@ == Seq::<Entity>::empty(),
            c.margin == 4 * PIXEL,
            c.gap == 4 * PIXEL,
    {
        UIContainer { children: Vec::new(), margin: 4 * PIXEL, gap: 4 * PIXEL }
    }

    /// A container without children, with the given margin and gap.
    pub fn with_spacing(margin: i64, gap: i64) -> (c: UIContainer)
        ensures
            c.children@ == Seq::<Entity>::empty(),
            c.margin == margin,
            c.gap == gap,
    {
        UIContainer { children: Vec::new(), margin, gap }
    }

    /// Appends `c` below the children added so far.
    pub fn add_child(&mut self, c: Entity)
        ensures
            final(self).children@ == old(self).children@.push(c),
            final(self).margin == old(self).margin,
            final(self).gap == old(self).gap,
    {
        self.children.push(c);
    }
}

/// How a child occupies space along the stacking axis.
#[derive(Copy, Clone)]
pub enum UISize {
    /// A fixed length.
    Constant(i64),
    /// A share of the space that fixed children leave, proportional to the
    /// weight among the growing siblings.
    Grow(usize),
}

/// Caps a child's width; a capped child is centered horizontally.
#[derive(Copy, Clone)]
pub struct UIConstraint {
    pub width: Option<i64>,
}

impl UIConstraint {
    /// A constraint that caps the width at `width`.
    pub fn width_constraint(width: i64) -> (c: UIConstraint)
        ensures
            c.width == Some(width),
    {
        UIConstraint { width: Some(width) }
    }
}

/// A line of text drawn in the centre of its rectangle.
pub struct Label {
    pub text: String,
    /// The font size in pixels.
    pub font_size: u16,
}

impl Label {
    /// A label of the given text and font size.
    pub fn new(text: String, font_size: u16) -> (l: Label)
        ensures
            l.text == text,
            l.font_size == font_size,
    {
        Label { text, font_size }
    }
}

/// The caption of a button.
pub struct Text(pub String);

/// The width that a button is capped to.
pub const BUTTON_WIDTH: i64 = 256 * PIXEL;

/// What is attached to one entity. Every part is optional: a spacer has only
/// a size, a root only a container and a rectangle.
pub struct Components {
    /// The rectangle that the last layout pass gave the entity; for a root,
    /// the window bounds.
    pub rect: Option<Rect>,
    pub size: Option<UISize>,
    pub constraint: Option<UIConstraint>,
    pub container: Option<UIContainer>,
    pub root: Option<UIRoot>,
    pub label: Option<Label>,
    pub button: Option<Button>,
    pub text: Option<Text>,
    pub quit: Option<QuitButton>,
}

impl Components {
    /// Nothing attached.
    pub fn none() -> (c: Components)
        ensures
            c.rect is None,
            c.size is None,
            c.constraint is None,
            c.container is None,
            c.root is None,
            c.label is None,
            c.button is None,
            c.text is None,
            c.quit is None,
    {
        Components {
            rect: None,
            size: None,
            constraint: None,
            container: None,
            root: None,
            label: None,
            button: None,
            text: None,
            quit: None,
        }
    }

    /// A spacer or a plain child: only a size.
    pub fn sized(size: UISize) -> (c: Components)
        ensures
            c.size == Some(size),
            c.rect is None,
            c.constraint is None,
            c.container is None,
            c.root is None,
            c.label is None,
            c.button is None,
            c.text is None,
            c.quit is None,
    {
        let mut c = Components::none();
        c.size = Some(size);
        c
    }
}

/// The entity store: each entity is the index of its components.
pub struct World {
    pub entities: Vec<Components>,
}

impl World {
    /// A world without entities.
    pub fn new() -> (w: World)
        ensures
            w.entities@ == Seq::<Components>::empty(),
    {
        World { entities: Vec::new() }
    }

    /// The number of entities.
    pub fn len(&self) -> (n: usize)
        ensures
            n == self.entities@.len(),
    {
        self.entities.len()
    }

    /// Whether `entity` names an entity of this world.
    pub fn contains(&self, entity: Entity) -> (r: bool)
        ensures
            r == (entity < self.entities@.len()),
    {
        entity < self.entities.len()
    }

    /// Adds an entity with the given components and returns its name: the
    /// number of entities that were there before.
    pub fn push(&mut self, components: Components) -> (entity: Entity)
        ensures
            entity == old(self).entities@.len(),
            final(self).entities@ == old(self).entities@.push(components),
    {
        let entity = self.entities.len();
        self.entities.push(components);
        entity
    }
}

/// Whether `c` is what [`spawn_button`] attaches to a button with the caption
/// `label`: it grows with weight one, is capped to `BUTTON_WIDTH`, is at
/// rest, and has no rectangle yet.
pub open spec fn is_fresh_button(c: Components, label: Seq<char>) -> bool {
    &&& c.size == Some(UISize::Grow(1))
    &&& c.constraint == Some(UIConstraint { width: Some(BUTTON_WIDTH) })
    &&& c.button == Some(
        Button {
            state: UIState::Normal,
            transition: 0,
            click_pos: Vec2 { x: 0, y: 0 },
            click_effect_progress: ANIMATION_FRAMES,
        },
    )
    &&& c.text matches Some(t) && t.0@ == label
    &&& c.rect is None
    &&& c.container is None
    &&& c.root is None
    &&& c.label is None
    &&& c.quit is None
}

/// Adds a button with the given caption to the world.
pub fn spawn_button(ecs: &mut World, label: &str) -> (entity: Entity)
    ensures
        entity == old(ecs).entities@.len(),
        final(ecs).entities@ == old(ecs).entities@.push(final(ecs).entities@[entity as int]),
        is_fresh_button(final(ecs).entities@[entity as int], label@),
{
    let mut c = Components::none();
    c.size = Some(UISize::Grow(1));
    c.constraint = Some(UIConstraint::width_constraint(BUTTON_WIDTH));
    c.button = Some(Button::new());
    c.text = Some(Text(label.to_owned()));
    ecs.push(c)
}

} // verus!
