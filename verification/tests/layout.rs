use plato::math::{Rect, Vec2, PIXEL};
use plato::ui::layout::{
    calculate_and_apply_child_ui_sizes, layout_ui, solve_children, LayoutError, SizeInfo,
    SolveError,
};
use plato::ui::passes::{apply_layout, size_ui_root, size_ui_roots};
use plato::ui::{Components, UIConstraint, UIContainer, UIRoot, UISize, World};

fn rect(x: i64, y: i64, w: i64, h: i64) -> Rect {
    Rect::new(Vec2::new(x, y), Vec2::new(w, h))
}

fn root(container: UIContainer, bounds: Rect) -> Components {
    let mut c = Components::none();
    c.root = Some(UIRoot);
    c.container = Some(container);
    c.rect = Some(bounds);
    c
}

fn column(size: UISize, container: UIContainer) -> Components {
    let mut c = Components::sized(size);
    c.container = Some(container);
    c
}

#[test]
fn two_growing_children_share_the_height() {
    let items: Vec<SizeInfo> = vec![(UISize::Grow(1), None), (UISize::Grow(1), None)];
    let rects = solve_children(rect(0, 0, 200, 100), 4, 4, &items).unwrap();
    assert_eq!(rects, vec![rect(4, 4, 192, 44), rect(4, 52, 192, 44)]);
}

#[test]
fn fixed_child_comes_off_the_top() {
    let items: Vec<SizeInfo> = vec![(UISize::Constant(20), None), (UISize::Grow(1), None)];
    let rects = solve_children(rect(0, 0, 50, 100), 0, 0, &items).unwrap();
    assert_eq!(rects, vec![rect(0, 0, 50, 20), rect(0, 20, 50, 80)]);
}

#[test]
fn width_constrained_child_is_centered() {
    let items: Vec<SizeInfo> =
        vec![(UISize::Grow(1), Some(UIConstraint::width_constraint(50)))];
    let rects = solve_children(rect(0, 0, 200, 100), 0, 0, &items).unwrap();
    assert_eq!(rects[0].position.x, 75);
    assert_eq!(rects[0].size.x, 50);
    assert_eq!(rects, vec![rect(75, 0, 50, 100)]);
}

#[test]
fn width_constraint_wider_than_the_container_does_nothing() {
    let items: Vec<SizeInfo> = vec![
        (UISize::Grow(1), Some(UIConstraint::width_constraint(500))),
        (UISize::Grow(1), Some(UIConstraint { width: None })),
    ];
    let rects = solve_children(rect(10, 0, 200, 100), 0, 0, &items).unwrap();
    assert_eq!(rects, vec![rect(10, 0, 200, 50), rect(10, 50, 200, 50)]);
}

#[test]
fn odd_leftover_width_puts_the_extra_unit_on_the_right() {
    let items: Vec<SizeInfo> =
        vec![(UISize::Constant(10), Some(UIConstraint::width_constraint(4)))];
    let rects = solve_children(rect(0, 0, 9, 10), 0, 0, &items).unwrap();
    assert_eq!(rects, vec![rect(2, 0, 4, 10)]);
}

#[test]
fn weights_divide_the_flexible_space() {
    let items: Vec<SizeInfo> = vec![
        (UISize::Grow(1), None),
        (UISize::Constant(10), None),
        (UISize::Grow(3), None),
    ];
    // inner height 100, used 10, gaps 2 * 5: flexible 80, unit 20
    let rects = solve_children(rect(0, 0, 30, 100), 0, 5, &items).unwrap();
    assert_eq!(
        rects,
        vec![rect(0, 0, 30, 20), rect(0, 25, 30, 10), rect(0, 40, 30, 60)]
    );
}

#[test]
fn unit_size_is_rounded_down() {
    let items: Vec<SizeInfo> = vec![
        (UISize::Grow(1), None),
        (UISize::Grow(1), None),
        (UISize::Grow(1), None),
    ];
    let rects = solve_children(rect(0, 0, 10, 100), 0, 0, &items).unwrap();
    assert_eq!(
        rects,
        vec![rect(0, 0, 10, 33), rect(0, 33, 10, 33), rect(0, 66, 10, 33)]
    );
    // Fixed children that take more than there is leave a negative unit.
    let items: Vec<SizeInfo> = vec![(UISize::Constant(11), None), (UISize::Grow(2), None)];
    let rects = solve_children(rect(0, 0, 10, 10), 0, 0, &items).unwrap();
    assert_eq!(rects, vec![rect(0, 0, 10, 11), rect(0, 11, 10, -2)]);
}

#[test]
fn empty_container_has_no_layout_work() {
    let items: Vec<SizeInfo> = vec![];
    assert_eq!(solve_children(rect(0, 0, 10, 10), 4, 4, &items), Ok(vec![]));
    assert_eq!(
        solve_children(rect(i64::MAX, i64::MAX, 10, 10), i64::MAX, i64::MIN, &items),
        Ok(vec![])
    );
}

#[test]
fn zero_total_weight_is_an_error() {
    let items: Vec<SizeInfo> = vec![(UISize::Constant(5), None), (UISize::Grow(0), None)];
    assert_eq!(
        solve_children(rect(0, 0, 10, 10), 0, 0, &items),
        Err(SolveError::ZeroGrowWeight)
    );
    let items: Vec<SizeInfo> = vec![(UISize::Grow(0), None), (UISize::Grow(2), None)];
    assert_eq!(
        solve_children(rect(0, 0, 10, 10), 0, 0, &items),
        Ok(vec![rect(0, 0, 10, 0), rect(0, 0, 10, 10)])
    );
}

#[test]
fn unrepresentable_lengths_are_an_error() {
    let one: Vec<SizeInfo> = vec![(UISize::Constant(1), None)];
    // The inner rectangle leaves the range.
    assert_eq!(
        solve_children(rect(i64::MAX, 0, 10, 10), 1, 0, &one),
        Err(SolveError::OutOfRange)
    );
    assert_eq!(
        solve_children(rect(0, 0, i64::MIN, 10), 1, 0, &one),
        Err(SolveError::OutOfRange)
    );
    // The second child starts beyond the range.
    let two: Vec<SizeInfo> = vec![(UISize::Constant(i64::MAX), None), (UISize::Constant(1), None)];
    assert_eq!(
        solve_children(rect(0, 1, 10, 10), 0, 0, &two),
        Err(SolveError::OutOfRange)
    );
    assert_eq!(
        solve_children(rect(0, 0, 10, 10), 0, 0, &two),
        Ok(vec![rect(0, 0, 10, i64::MAX), rect(0, i64::MAX, 10, 1)])
    );
    // The fixed space leaves the range, and a child grows.
    let three: Vec<SizeInfo> = vec![
        (UISize::Constant(i64::MIN), None),
        (UISize::Constant(i64::MIN), None),
        (UISize::Grow(1), None),
    ];
    assert_eq!(
        solve_children(rect(0, 0, 10, 10), 0, 0, &three),
        Err(SolveError::OutOfRange)
    );
    // A weight takes the height out of the range.
    let heavy: Vec<SizeInfo> = vec![(UISize::Grow(1), None), (UISize::Grow(usize::MAX), None)];
    assert_eq!(
        solve_children(rect(0, 0, 10, -10), 0, 0, &heavy),
        Err(SolveError::OutOfRange)
    );
    let light: Vec<SizeInfo> = vec![(UISize::Grow(1), None), (UISize::Grow(usize::MAX), None)];
    assert_eq!(
        solve_children(rect(0, 0, 10, 10), 0, 0, &light),
        Ok(vec![rect(0, 0, 10, 0), rect(0, 0, 10, 0)])
    );
}

#[test]
fn layout_of_a_root_with_two_growing_children() {
    let mut world = World::new();
    let a = world.push(Components::sized(UISize::Grow(1)));
    let b = world.push(Components::sized(UISize::Grow(1)));
    let mut container = UIContainer::with_spacing(4, 4);
    container.add_child(a);
    container.add_child(b);
    let r = world.push(root(container, rect(0, 0, 200, 100)));
    let rects = layout_ui(&world).unwrap();
    assert_eq!(rects.len(), 3);
    assert_eq!(rects[a], Some(rect(4, 4, 192, 44)));
    assert_eq!(rects[b], Some(rect(4, 52, 192, 44)));
    assert_eq!(rects[r], None);
    assert_eq!(rects[a].unwrap().size.y, 44);
    assert_eq!(rects[a].unwrap().position.y, 4);
    assert_eq!(rects[b].unwrap().position.y, 52);
}

#[test]
fn layout_descends_into_nested_containers() {
    let mut world = World::new();
    let leaf_a = world.push(Components::sized(UISize::Constant(10)));
    let leaf_b = world.push(Components::sized(UISize::Grow(1)));
    let mut inner = UIContainer::with_spacing(1, 2);
    inner.add_child(leaf_a);
    inner.add_child(leaf_b);
    let nested = world.push(column(UISize::Grow(1), inner));
    let header = world.push(Components::sized(UISize::Constant(20)));
    let mut outer = UIContainer::with_spacing(0, 0);
    outer.add_child(header);
    outer.add_child(nested);
    world.push(root(outer, rect(0, 0, 100, 100)));
    let rects = layout_ui(&world).unwrap();
    assert_eq!(rects[header], Some(rect(0, 0, 100, 20)));
    assert_eq!(rects[nested], Some(rect(0, 20, 100, 80)));
    // inner rectangle (1, 21, 98, 78): 10 fixed, gap 2, 66 left to grow
    assert_eq!(rects[leaf_a], Some(rect(1, 21, 98, 10)));
    assert_eq!(rects[leaf_b], Some(rect(1, 33, 98, 66)));
}

#[test]
fn layout_is_deterministic_and_leaves_the_world_alone() {
    let mut world = World::new();
    let a = world.push(Components::sized(UISize::Grow(2)));
    let b = world.push(Components::sized(UISize::Grow(5)));
    let mut container = UIContainer::empty();
    container.add_child(a);
    container.add_child(b);
    world.push(root(container, rect(0, 0, 640 * PIXEL, 480 * PIXEL)));
    let first = layout_ui(&world).unwrap();
    let second = layout_ui(&world).unwrap();
    assert_eq!(first, second);
    assert_eq!(world.entities[a].rect, None);
    // inner height 472000, gap 4000: 468000 to grow, 7 units of 66857
    assert_eq!(first[a], Some(rect(4000, 4000, 632000, 133714)));
    assert_eq!(first[b], Some(rect(4000, 141714, 632000, 334285)));
}

#[test]
fn default_container_spacing_is_four_pixels() {
    let c = UIContainer::empty();
    assert_eq!(c.margin, 4 * PIXEL);
    assert_eq!(c.gap, 4 * PIXEL);
    assert!(c.children.is_empty());
    let c = UIContainer::with_spacing(1, 2);
    assert_eq!((c.margin, c.gap), (1, 2));
    assert_eq!(UIConstraint::width_constraint(7).width, Some(7));
}

#[test]
fn missing_child_is_named() {
    let mut world = World::new();
    let a = world.push(Components::sized(UISize::Grow(1)));
    let mut container = UIContainer::empty();
    container.add_child(a);
    container.add_child(17);
    container.add_child(23);
    world.push(root(container, rect(0, 0, 100, 100)));
    assert_eq!(layout_ui(&world), Err(LayoutError::MissingChild(17)));
}

#[test]
fn child_without_size_is_named() {
    let mut world = World::new();
    let a = world.push(Components::sized(UISize::Grow(1)));
    let b = world.push(Components::none());
    let mut container = UIContainer::empty();
    container.add_child(a);
    container.add_child(b);
    container.add_child(99);
    world.push(root(container, rect(0, 0, 100, 100)));
    assert_eq!(layout_ui(&world), Err(LayoutError::MissingSize(b)));
}

#[test]
fn errors_of_one_container_surface_for_the_tree() {
    let mut world = World::new();
    let a = world.push(Components::sized(UISize::Grow(0)));
    let mut inner = UIContainer::with_spacing(0, 0);
    inner.add_child(a);
    let nested = world.push(column(UISize::Grow(1), inner));
    let mut outer = UIContainer::with_spacing(0, 0);
    outer.add_child(nested);
    let r = world.push(root(outer, rect(0, 0, 100, 100)));
    assert_eq!(layout_ui(&world), Err(LayoutError::ZeroGrowWeight));

    world.entities[a].size = Some(UISize::Constant(1));
    world.entities[r].rect = Some(rect(i64::MAX, 0, 100, 100));
    world.entities[r].container.as_mut().unwrap().margin = 1;
    assert_eq!(layout_ui(&world), Err(LayoutError::OutOfRange));
}

#[test]
fn containers_in_a_cycle_are_too_deep() {
    let mut world = World::new();
    // Entity 0 contains entity 1, which contains entity 0.
    let mut first = UIContainer::with_spacing(0, 0);
    first.add_child(1);
    let mut second = UIContainer::with_spacing(0, 0);
    second.add_child(0);
    world.push(column(UISize::Grow(1), first));
    world.push(column(UISize::Grow(1), second));
    let mut outer = UIContainer::with_spacing(0, 0);
    outer.add_child(0);
    world.push(root(outer, rect(0, 0, 100, 100)));
    assert!(matches!(layout_ui(&world), Err(LayoutError::TooDeep(_))));
}

#[test]
fn a_chain_as_deep_as_the_world_is_laid_out() {
    let mut world = World::new();
    let leaf = world.push(Components::sized(UISize::Grow(1)));
    let mut below = leaf;
    for _ in 0..5 {
        let mut c = UIContainer::with_spacing(1, 0);
        c.add_child(below);
        below = world.push(column(UISize::Grow(1), c));
    }
    let mut outer = UIContainer::with_spacing(1, 0);
    outer.add_child(below);
    world.push(root(outer, rect(0, 0, 100, 100)));
    let rects = layout_ui(&world).unwrap();
    assert_eq!(rects[leaf], Some(rect(6, 6, 88, 88)));
}

#[test]
fn entity_in_two_containers_keeps_the_later_rectangle() {
    let mut world = World::new();
    let shared = world.push(Components::sized(UISize::Grow(1)));
    let mut first = UIContainer::with_spacing(0, 0);
    first.add_child(shared);
    let mut second = UIContainer::with_spacing(10, 0);
    second.add_child(shared);
    world.push(root(first, rect(0, 0, 100, 100)));
    world.push(root(second, rect(0, 0, 100, 100)));
    let rects = layout_ui(&world).unwrap();
    assert_eq!(rects[shared], Some(rect(10, 10, 80, 80)));
}

#[test]
fn depth_limits_how_far_the_layout_descends() {
    let mut world = World::new();
    let leaf = world.push(Components::sized(UISize::Grow(1)));
    let mut inner = UIContainer::with_spacing(0, 0);
    inner.add_child(leaf);
    let nested = world.push(column(UISize::Grow(1), inner));
    let mut outer = UIContainer::with_spacing(0, 0);
    outer.add_child(nested);
    let mut commands = vec![None; world.len()];
    assert_eq!(
        calculate_and_apply_child_ui_sizes(rect(0, 0, 10, 10), &outer, &world, &mut commands, 0),
        Err(LayoutError::TooDeep(nested))
    );
    let mut commands = vec![None; world.len()];
    assert_eq!(
        calculate_and_apply_child_ui_sizes(rect(0, 0, 10, 10), &outer, &world, &mut commands, 1),
        Ok(())
    );
    assert_eq!(commands, vec![Some(rect(0, 0, 10, 10)), Some(rect(0, 0, 10, 10))]);
}

#[test]
fn roots_take_the_window_bounds() {
    let mut r = rect(5, 6, 7, 8);
    size_ui_root(&mut r, 800, 600);
    assert_eq!(r, rect(0, 0, 800, 600));

    let mut world = World::new();
    let plain = world.push(Components::sized(UISize::Grow(1)));
    let r = world.push(root(UIContainer::empty(), rect(1, 1, 1, 1)));
    let mut marked = Components::none();
    marked.root = Some(UIRoot);
    let unsized_root = world.push(marked);
    size_ui_roots(&mut world, 800, 600);
    assert_eq!(world.entities[plain].rect, None);
    assert_eq!(world.entities[r].rect, Some(rect(0, 0, 800, 600)));
    assert_eq!(world.entities[unsized_root].rect, None);
}

#[test]
fn applying_a_layout_overwrites_rectangles() {
    let mut world = World::new();
    let a = world.push(Components::sized(UISize::Grow(1)));
    let mut b_c = Components::sized(UISize::Grow(1));
    b_c.rect = Some(rect(9, 9, 9, 9));
    let b = world.push(b_c);
    let mut c_c = Components::sized(UISize::Grow(1));
    c_c.rect = Some(rect(7, 7, 7, 7));
    let c = world.push(c_c);
    apply_layout(&mut world, &vec![Some(rect(1, 2, 3, 4)), Some(rect(5, 6, 7, 8)), None]);
    assert_eq!(world.entities[a].rect, Some(rect(1, 2, 3, 4)));
    assert_eq!(world.entities[b].rect, Some(rect(5, 6, 7, 8)));
    assert_eq!(world.entities[c].rect, Some(rect(7, 7, 7, 7)));
    assert_eq!(world.entities[a].size.is_some(), true);
}

#[test]
fn world_hands_out_indices() {
    let mut world = World::new();
    assert_eq!(world.len(), 0);
    assert!(!world.contains(0));
    assert_eq!(world.push(Components::none()), 0);
    assert_eq!(world.push(Components::none()), 1);
    assert_eq!(world.len(), 2);
    assert!(world.contains(1));
    assert!(!world.contains(2));
}
