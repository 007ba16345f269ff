//! The main menu lays out in every window.

use vstd::prelude::*;

use crate::math::{Rect, Vec2, PIXEL};
use crate::title_menu::is_main_menu;
use crate::ui::layout::{
    child_frame, child_top, flex_space, frame_fits, frame_rect, grow_units, has_grow,
    inner_frame, is_root, layout, layout_roots, lemma_measure_step, lemma_size_info_sized, place,
    place_children, size_info, solve, unit_size, used_space, LayoutError, SizeInfo,
};
use crate::ui::passes::{applied, sized_roots, updated_buttons, window_rect};
use crate::ui::{Components, Entity, UIConstraint, UISize, BUTTON_WIDTH};

verus! {

/// The largest extent of a window that the menu is shown to lay out in.
pub const WINDOW_LIMIT: i64 = 0x4000_0000_0000_0000;

/// Whether a rectangle lies within the largest window, give or take `slack`:
/// it starts and ends no further out, and is no shorter than `-slack`.
pub open spec fn within(rect: Rect, slack: int) -> bool {
    &&& -(WINDOW_LIMIT + slack) <= rect.position.x <= WINDOW_LIMIT + slack
    &&& -(WINDOW_LIMIT + slack) <= rect.size.x <= WINDOW_LIMIT + slack
    &&& -(WINDOW_LIMIT + slack) <= rect.position.y <= WINDOW_LIMIT + slack
    &&& -slack <= rect.size.y
    &&& rect.position.y + rect.size.y <= WINDOW_LIMIT + slack
}

/// The sums over a column of growing children.
proof fn lemma_growing_sums(items: Seq<SizeInfo>, i: int)
    requires
        0 <= i <= items.len(),
        forall|k: int| 0 <= k < items.len() ==> (#[trigger] items[k]).0 is Grow,
    ensures
        used_space(items.take(i)) == 0,
        i > 0 ==> has_grow(items.take(i)),
    decreases i,
{
    if i > 0 {
        lemma_growing_sums(items, i - 1);
        lemma_measure_step(items, i - 1);
    } else {
        assert(items.take(0).len() == 0);
    }
}

/// The root column lays out: the title above the body, one to nine.
pub proof fn lemma_root_column(rect: Rect, items: Seq<SizeInfo>)
    requires
        items.len() == 2,
        items[0] == (UISize::Grow(1), None::<UIConstraint>),
        items[1] == (UISize::Grow(9), None::<UIConstraint>),
        within(rect, 0),
    ensures
        solve(rect, 4 * PIXEL, 4 * PIXEL, items) is Ok,
        solve(rect, 4 * PIXEL, 4 * PIXEL, items)->Ok_0.len() == 2,
        within(solve(rect, 4 * PIXEL, 4 * PIXEL, items)->Ok_0[1], 0x1_0000),
{
    let inner = inner_frame(rect, 4 * PIXEL);
    lemma_growing_sums(items, 2);
    lemma_measure_step(items, 0);
    lemma_measure_step(items, 1);
    assert(items.take(0).len() == 0);
    assert(items.take(2) == items);
    assert(grow_units(items) == 10);
    let unit = unit_size(inner.h, 4 * PIXEL, items);
    assert(flex_space(inner.h, 4 * PIXEL, items) == rect.size.y - 12 * PIXEL);
    assert(unit == (rect.size.y - 12 * PIXEL) / 10);
    reveal_with_fuel(child_top, 3);
    assert forall|i: int| 0 <= i < items.len() implies frame_fits(
        #[trigger] child_frame(inner, 4 * PIXEL, unit, items, i),
    ) by {
        if i == 0 {
        } else {
            assert(i == 1);
        }
    }
    let got = solve(rect, 4 * PIXEL, 4 * PIXEL, items);
    assert(got is Ok);
    assert(got->Ok_0[1] == frame_rect(child_frame(inner, 4 * PIXEL, unit, items, 1)));
}

/// The body column lays out: a spacer, the button section and another
/// spacer, one to two to two.
pub proof fn lemma_body_column(rect: Rect, items: Seq<SizeInfo>)
    requires
        items.len() == 3,
        items[0] == (UISize::Grow(1), None::<UIConstraint>),
        items[1] == (UISize::Grow(2), None::<UIConstraint>),
        items[2] == (UISize::Grow(2), None::<UIConstraint>),
        within(rect, 0x1_0000),
    ensures
        solve(rect, 4 * PIXEL, 4 * PIXEL, items) is Ok,
        solve(rect, 4 * PIXEL, 4 * PIXEL, items)->Ok_0.len() == 3,
        within(solve(rect, 4 * PIXEL, 4 * PIXEL, items)->Ok_0[1], 0x10_0000),
{
    let inner = inner_frame(rect, 4 * PIXEL);
    lemma_growing_sums(items, 3);
    lemma_measure_step(items, 0);
    lemma_measure_step(items, 1);
    lemma_measure_step(items, 2);
    assert(items.take(0).len() == 0);
    assert(items.take(3) == items);
    assert(grow_units(items) == 5);
    let unit = unit_size(inner.h, 4 * PIXEL, items);
    assert(flex_space(inner.h, 4 * PIXEL, items) == rect.size.y - 16 * PIXEL);
    assert(unit == (rect.size.y - 16 * PIXEL) / 5);
    reveal_with_fuel(child_top, 4);
    assert forall|i: int| 0 <= i < items.len() implies frame_fits(
        #[trigger] child_frame(inner, 4 * PIXEL, unit, items, i),
    ) by {
        if i == 0 {
        } else if i == 1 {
        } else {
            assert(i == 2);
        }
    }
    let got = solve(rect, 4 * PIXEL, 4 * PIXEL, items);
    assert(got is Ok);
    assert(got->Ok_0[1] == frame_rect(child_frame(inner, 4 * PIXEL, unit, items, 1)));
}

/// The button column lays out: two buttons between two spacers, all of the
/// same weight.
pub proof fn lemma_button_column(rect: Rect, items: Seq<SizeInfo>)
    requires
        items.len() == 4,
        items[0] == (UISize::Grow(1), None::<UIConstraint>),
        items[1] == (UISize::Grow(1), Some(UIConstraint { width: Some(BUTTON_WIDTH) })),
        items[2] == (UISize::Grow(1), Some(UIConstraint { width: Some(BUTTON_WIDTH) })),
        items[3] == (UISize::Grow(1), None::<UIConstraint>),
        within(rect, 0x10_0000),
    ensures
        solve(rect, 4 * PIXEL, 4 * PIXEL, items) is Ok,
        solve(rect, 4 * PIXEL, 4 * PIXEL, items)->Ok_0.len() == 4,
{
    let inner = inner_frame(rect, 4 * PIXEL);
    lemma_growing_sums(items, 4);
    lemma_measure_step(items, 0);
    lemma_measure_step(items, 1);
    lemma_measure_step(items, 2);
    lemma_measure_step(items, 3);
    assert(items.take(0).len() == 0);
    assert(items.take(4) == items);
    assert(grow_units(items) == 4);
    let unit = unit_size(inner.h, 4 * PIXEL, items);
    assert(flex_space(inner.h, 4 * PIXEL, items) == rect.size.y - 20 * PIXEL);
    assert(unit == (rect.size.y - 20 * PIXEL) / 4);
    reveal_with_fuel(child_top, 5);
    assert forall|i: int| 0 <= i < items.len() implies frame_fits(
        #[trigger] child_frame(inner, 4 * PIXEL, unit, items, i),
    ) by {
        if i == 0 {
        } else if i == 1 {
        } else if i == 2 {
        } else {
            assert(i == 3);
        }
    }
}

/// Whether `c` is a column of the given children with a margin and a gap of
/// four pixels.
pub open spec fn is_column(c: Components, children: Seq<Entity>) -> bool {
    c.container matches Some(column) && column.children@ == children && column.margin == 4
        * PIXEL && column.gap == 4 * PIXEL
}

/// Whether `c` grows with the given weight under the given constraint, is no
/// root, and is a column of the given children or, for `None`, no container.
pub open spec fn is_part(
    c: Components,
    weight: usize,
    constraint: Option<UIConstraint>,
    children: Option<Seq<Entity>>,
) -> bool {
    &&& c.size == Some(UISize::Grow(weight))
    &&& c.constraint == constraint
    &&& c.root is None
    &&& match children {
        Some(list) => is_column(c, list),
        None => c.container is None,
    }
}

/// Whether a world holds the main menu and nothing else, as far as the layout
/// reads it: the sizes, the constraints, the columns and the root.
pub open spec fn has_menu_shape(nodes: Seq<Components>) -> bool {
    let capped = Some(UIConstraint { width: Some(BUTTON_WIDTH) });
    &&& nodes.len() == 10
    &&& is_part(nodes[0], 1, None, None)
    &&& is_part(nodes[1], 1, None, None)
    &&& is_part(nodes[2], 1, None, None)
    &&& is_part(nodes[3], 1, capped, None)
    &&& is_part(nodes[4], 1, capped, None)
    &&& is_part(nodes[5], 1, None, None)
    &&& is_part(nodes[6], 2, None, Some(seq![2usize, 3usize, 4usize, 5usize]))
    &&& is_part(nodes[7], 2, None, None)
    &&& is_part(nodes[8], 9, None, Some(seq![1usize, 6usize, 7usize]))
    &&& nodes[9].root is Some
    &&& nodes[9].rect is Some
    &&& is_column(nodes[9], seq![0usize, 8usize])
}

/// A world that holds the main menu and nothing else has the menu's shape.
pub proof fn lemma_main_menu_shape(nodes: Seq<Components>)
    requires
        nodes.len() == 10,
        is_main_menu(nodes, 0),
    ensures
        has_menu_shape(nodes),
{
}

/// The passes of a frame keep the menu's shape.
pub proof fn lemma_passes_keep_shape(
    nodes: Seq<Components>,
    width: i64,
    height: i64,
    rects: Seq<Option<Rect>>,
    pointer: Vec2,
    held: bool,
    just_pressed: bool,
)
    requires
        has_menu_shape(nodes),
    ensures
        has_menu_shape(sized_roots(nodes, width, height)),
        sized_roots(nodes, width, height)[9].rect == Some(window_rect(width, height)),
        has_menu_shape(applied(nodes, rects)),
        has_menu_shape(updated_buttons(nodes, pointer, held, just_pressed)),
{
}

proof fn lemma_place_buttons(
    nodes: Seq<Components>,
    rects: Seq<Option<Rect>>,
    rect: Rect,
    depth: nat,
)
    requires
        has_menu_shape(nodes),
        within(rect, 0x10_0000),
    ensures
        place(nodes, rects, nodes[6].container->Some_0, rect, depth) is Ok,
{
    let column = nodes[6].container->Some_0;
    let children = column.children@;
    lemma_size_info_sized(nodes, children);
    let items = size_info(nodes, children)->Ok_0;
    assert(items[0] == (UISize::Grow(1), None::<UIConstraint>));
    assert(items[1] == (UISize::Grow(1), Some(UIConstraint { width: Some(BUTTON_WIDTH) })));
    assert(items[2] == (UISize::Grow(1), Some(UIConstraint { width: Some(BUTTON_WIDTH) })));
    assert(items[3] == (UISize::Grow(1), None::<UIConstraint>));
    lemma_button_column(rect, items);
    let child_rects = solve(rect, 4 * PIXEL, 4 * PIXEL, items)->Ok_0;
    reveal_with_fuel(place_children, 5);
    assert(place_children(nodes, rects, children, child_rects, 4, depth) is Ok);
}

proof fn lemma_place_body(
    nodes: Seq<Components>,
    rects: Seq<Option<Rect>>,
    rect: Rect,
    depth: nat,
)
    requires
        has_menu_shape(nodes),
        within(rect, 0x1_0000),
        depth >= 1,
    ensures
        place(nodes, rects, nodes[8].container->Some_0, rect, depth) is Ok,
{
    let column = nodes[8].container->Some_0;
    let children = column.children@;
    lemma_size_info_sized(nodes, children);
    let items = size_info(nodes, children)->Ok_0;
    assert(items[0] == (UISize::Grow(1), None::<UIConstraint>));
    assert(items[1] == (UISize::Grow(2), None::<UIConstraint>));
    assert(items[2] == (UISize::Grow(2), None::<UIConstraint>));
    lemma_body_column(rect, items);
    let child_rects = solve(rect, 4 * PIXEL, 4 * PIXEL, items)->Ok_0;
    let first = place_children(nodes, rects, children, child_rects, 1, depth);
    reveal_with_fuel(place_children, 2);
    assert(first is Ok);
    lemma_place_buttons(nodes, first->Ok_0, child_rects[1], (depth - 1) as nat);
    let second = place_children(nodes, rects, children, child_rects, 2, depth);
    assert(second is Ok);
    assert(place_children(nodes, rects, children, child_rects, 3, depth) is Ok);
}

proof fn lemma_place_menu(
    nodes: Seq<Components>,
    rects: Seq<Option<Rect>>,
    rect: Rect,
    depth: nat,
)
    requires
        has_menu_shape(nodes),
        within(rect, 0),
        depth >= 2,
    ensures
        place(nodes, rects, nodes[9].container->Some_0, rect, depth) is Ok,
{
    let column = nodes[9].container->Some_0;
    let children = column.children@;
    lemma_size_info_sized(nodes, children);
    let items = size_info(nodes, children)->Ok_0;
    assert(items[0] == (UISize::Grow(1), None::<UIConstraint>));
    assert(items[1] == (UISize::Grow(9), None::<UIConstraint>));
    lemma_root_column(rect, items);
    let child_rects = solve(rect, 4 * PIXEL, 4 * PIXEL, items)->Ok_0;
    let first = place_children(nodes, rects, children, child_rects, 1, depth);
    reveal_with_fuel(place_children, 2);
    assert(first is Ok);
    lemma_place_body(nodes, first->Ok_0, child_rects[1], (depth - 1) as nat);
    assert(place_children(nodes, rects, children, child_rects, 2, depth) is Ok);
}

proof fn lemma_no_roots_before(nodes: Seq<Components>, count: nat)
    requires
        has_menu_shape(nodes),
        count <= 9,
    ensures
        layout_roots(nodes, count) is Ok,
    decreases count,
{
    if count > 0 {
        lemma_no_roots_before(nodes, (count - 1) as nat);
        assert(!is_root(nodes[count - 1]));
    }
}

/// The main menu lays out in every window: whatever the extent of the
/// window, up to `WINDOW_LIMIT`, the layout of a world with the menu's shape
/// whose root has the window's bounds is no error.
pub proof fn lemma_menu_lays_out(nodes: Seq<Components>, width: i64, height: i64)
    requires
        has_menu_shape(nodes),
        nodes[9].rect == Some(window_rect(width, height)),
        0 <= width <= WINDOW_LIMIT,
        0 <= height <= WINDOW_LIMIT,
    ensures
        layout(nodes) is Ok,
{
    lemma_no_roots_before(nodes, 9);
    let before = layout_roots(nodes, 9)->Ok_0;
    assert(is_root(nodes[9]));
    lemma_place_menu(nodes, before, window_rect(width, height), 10);
}

} // verus!
