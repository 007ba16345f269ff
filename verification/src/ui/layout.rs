//! The constraint layout engine: sizes and positions the children of a
//! container inside the container's rectangle, then descends into children
//! that are containers themselves.

use vstd::prelude::*;

use crate::math::{div_floor, fits, lemma_floor_div_magnitude, lemma_floor_div_unique};
use crate::math::{Rect, Vec2};
use crate::ui::{Components, Entity, UIConstraint, UIContainer, UISize, World};

verus! {

/// What the layout of a container reads of one child.
pub type SizeInfo = (UISize, Option<UIConstraint>);

/// A rectangle with unbounded coordinates.
pub struct Frame {
    pub x: int,
    pub y: int,
    pub w: int,
    pub h: int,
}

/// Why the children of one container cannot be laid out.
#[derive(Copy, Clone, Debug, PartialEq, Eq, Structural)]
pub enum SolveError {
    /// There are growing children, and their weights add up to zero.
    ZeroGrowWeight,
    /// A length of the layout is not representable.
    OutOfRange,
}

/// The length that a child takes from the fixed budget.
pub open spec fn fixed_length(size: UISize) -> int {
    match size {
        UISize::Constant(s) => s as int,
        UISize::Grow(_) => 0,
    }
}

/// The weight with which a child shares in the flexible space.
pub open spec fn grow_weight(size: UISize) -> int {
    match size {
        UISize::Constant(_) => 0,
        UISize::Grow(units) => units as int,
    }
}

/// The sum of the fixed lengths.
pub open spec fn used_space(items: Seq<SizeInfo>) -> int
    decreases items.len(),
{
    if items.len() == 0 {
        0
    } else {
        used_space(items.drop_last()) + fixed_length(items.last().0)
    }
}

/// The sum of the grow weights.
pub open spec fn grow_units(items: Seq<SizeInfo>) -> int
    decreases items.len(),
{
    if items.len() == 0 {
        0
    } else {
        grow_units(items.drop_last()) + grow_weight(items.last().0)
    }
}

/// Whether some child grows.
pub open spec fn has_grow(items: Seq<SizeInfo>) -> bool {
    exists|i: int| 0 <= i < items.len() && (#[trigger] items[i]).0 is Grow
}

/// The container's rectangle inset by the margin on all four sides.
pub open spec fn inner_frame(rect: Rect, margin: int) -> Frame {
    Frame {
        x: rect.position.x + margin,
        y: rect.position.y + margin,
        w: rect.size.x - 2 * margin,
        h: rect.size.y - 2 * margin,
    }
}

/// The space that the gaps between `count` children take.
pub open spec fn gap_space(gap: int, count: int) -> int {
    gap * (count - 1)
}

/// The space left for growing children.
pub open spec fn flex_space(inner_height: int, gap: int, items: Seq<SizeInfo>) -> int {
    inner_height - used_space(items) - gap_space(gap, items.len() as int)
}

/// The length of one grow unit: the flexible space divided by the total
/// weight, rounded down. Zero where no child grows.
pub open spec fn unit_size(inner_height: int, gap: int, items: Seq<SizeInfo>) -> int {
    if has_grow(items) {
        flex_space(inner_height, gap, items) / grow_units(items)
    } else {
        0
    }
}

/// A child's height: its fixed length, or its weight in grow units.
pub open spec fn child_height(size: UISize, unit: int) -> int {
    match size {
        UISize::Constant(s) => s as int,
        UISize::Grow(units) => unit * units,
    }
}

/// The top edge of child `i`: the inner top, plus the height of each child
/// above it and one gap after each.
pub open spec fn child_top(inner_y: int, gap: int, unit: int, items: Seq<SizeInfo>, i: int) -> int
    decreases i,
{
    if i <= 0 {
        inner_y
    } else {
        child_top(inner_y, gap, unit, items, i - 1) + child_height(items[i - 1].0, unit) + gap
    }
}

/// A child's width: the inner width, capped by the child's constraint.
pub open spec fn child_width(inner_w: int, constraint: Option<UIConstraint>) -> int {
    match constraint {
        Some(UIConstraint { width: Some(max_width) }) => if inner_w <= max_width {
            inner_w
        } else {
            max_width as int
        },
        _ => inner_w,
    }
}

/// A child's left edge: the child is centered in the inner width, rounding
/// the left margin down.
pub open spec fn child_left(inner_x: int, inner_w: int, constraint: Option<UIConstraint>) -> int {
    inner_x + (inner_w - child_width(inner_w, constraint)) / 2
}

/// The frame of child `i` of a container with the given inner frame.
pub open spec fn child_frame(inner: Frame, gap: int, unit: int, items: Seq<SizeInfo>, i: int) -> Frame {
    Frame {
        x: child_left(inner.x, inner.w, items[i].1),
        y: child_top(inner.y, gap, unit, items, i),
        w: child_width(inner.w, items[i].1),
        h: child_height(items[i].0, unit),
    }
}

/// Whether all four coordinates are representable.
pub open spec fn frame_fits(f: Frame) -> bool {
    fits(f.x) && fits(f.y) && fits(f.w) && fits(f.h)
}

/// The rectangle with the coordinates of a representable frame.
pub open spec fn frame_rect(f: Frame) -> Rect {
    Rect {
        position: Vec2 { x: f.x as i64, y: f.y as i64 },
        size: Vec2 { x: f.w as i64, y: f.h as i64 },
    }
}

/// Whether the space of a container with growing children can be divided:
/// the fixed space, the gaps and the flexible space are representable.
pub open spec fn flex_fits(inner_height: int, gap: int, items: Seq<SizeInfo>) -> bool {
    &&& fits(used_space(items))
    &&& fits(gap_space(gap, items.len() as int))
    &&& fits(flex_space(inner_height, gap, items))
}

/// The layout of one container: the rectangle of each child, in order.
///
/// A container without children has no layout work. Otherwise the inner
/// rectangle must be representable; where children grow, their total weight
/// must be positive and the space to divide representable; and every child's
/// rectangle must be representable.
pub open spec fn solve(rect: Rect, margin: int, gap: int, items: Seq<SizeInfo>) -> Result<
    Seq<Rect>,
    SolveError,
> {
    let inner = inner_frame(rect, margin);
    let unit = unit_size(inner.h, gap, items);
    if items.len() == 0 {
        Ok(Seq::empty())
    } else if !frame_fits(inner) {
        Err(SolveError::OutOfRange)
    } else if has_grow(items) && grow_units(items) == 0 {
        Err(SolveError::ZeroGrowWeight)
    } else if has_grow(items) && !flex_fits(inner.h, gap, items) {
        Err(SolveError::OutOfRange)
    } else if exists|i: int|
        0 <= i < items.len() && !frame_fits(#[trigger] child_frame(inner, gap, unit, items, i)) {
        Err(SolveError::OutOfRange)
    } else {
        Ok(Seq::new(items.len(), |i: int| frame_rect(child_frame(inner, gap, unit, items, i))))
    }
}

/// Taking one more child into account adds its contribution to the sums.
pub proof fn lemma_measure_step(items: Seq<SizeInfo>, i: int)
    requires
        0 <= i < items.len(),
    ensures
        used_space(items.take(i + 1)) == used_space(items.take(i)) + fixed_length(items[i].0),
        grow_units(items.take(i + 1)) == grow_units(items.take(i)) + grow_weight(items[i].0),
        has_grow(items.take(i + 1)) == (has_grow(items.take(i)) || items[i].0 is Grow),
{
    let longer = items.take(i + 1);
    let shorter = items.take(i);
    assert(longer.drop_last() == shorter);
    assert(longer.last() == items[i]);
    if has_grow(shorter) {
        let j = choose|j: int| 0 <= j < shorter.len() && (#[trigger] shorter[j]).0 is Grow;
        assert(longer[j].0 is Grow);
    }
    if items[i].0 is Grow {
        assert(longer[i].0 is Grow);
    }
    if has_grow(longer) {
        let j = choose|j: int| 0 <= j < longer.len() && (#[trigger] longer[j]).0 is Grow;
        if j < i {
            assert(shorter[j].0 is Grow);
        }
    }
}

/// The fixed space, the total grow weight, and whether any child grows.
fn measure(items: &Vec<SizeInfo>) -> (r: (i128, u128, bool))
    ensures
        r.0 == used_space(items@),
        r.1 == grow_units(items@),
        r.2 == has_grow(items@),
{
    let mut used: i128 = 0;
    let mut units: u128 = 0;
    let mut grows = false;
    let mut i: usize = 0;
    while i < items.len()
        invariant
            i <= items.len(),
            used == used_space(items@.take(i as int)),
            units == grow_units(items@.take(i as int)),
            grows == has_grow(items@.take(i as int)),
            -(i as int) * 0x8000_0000_0000_0000 <= used <= (i as int) * 0x8000_0000_0000_0000,
            units <= (i as int) * 0xffff_ffff_ffff_ffff,
        decreases items.len() - i,
    {
        proof {
            lemma_measure_step(items@, i as int);
        }
        match items[i].0 {
            UISize::Constant(s) => {
                used = used + s as i128;
            },
            UISize::Grow(weight) => {
                units = units + weight as u128;
                grows = true;
            },
        }
        i = i + 1;
    }
    proof {
        assert(items@.take(items.len() as int) == items@);
    }
    (used, units, grows)
}

/// Children are stacked in order: each child starts one gap below the end of
/// the child before it.
pub proof fn lemma_children_stack(inner: Frame, gap: int, unit: int, items: Seq<SizeInfo>, i: int)
    requires
        0 <= i,
    ensures
        child_frame(inner, gap, unit, items, i + 1).y == child_frame(inner, gap, unit, items, i).y
            + child_frame(inner, gap, unit, items, i).h + gap,
        child_frame(inner, gap, unit, items, 0).y == inner.y,
{
}

/// A child is never wider than the inner width of its container, a capped
/// child never wider than its cap, and every child is centered: the margins
/// to its left and to its right differ by at most one unit.
pub proof fn lemma_child_centered(inner_x: int, inner_w: int, constraint: Option<UIConstraint>)
    ensures
        child_width(inner_w, constraint) <= inner_w,
        constraint matches Some(UIConstraint { width: Some(max_width) }) ==> child_width(
            inner_w,
            constraint,
        ) <= max_width,
        ({
            let left = child_left(inner_x, inner_w, constraint) - inner_x;
            let right = (inner_x + inner_w) - (child_left(inner_x, inner_w, constraint)
                + child_width(inner_w, constraint));
            0 <= left <= right <= left + 1
        }),
{
}

/// The top edge of child `i` lies below the inner top by the fixed lengths and
/// the grow units of the children above it, and one gap for each of them.
proof fn lemma_child_top_sum(inner_y: int, gap: int, unit: int, items: Seq<SizeInfo>, i: int)
    requires
        0 <= i <= items.len(),
    ensures
        child_top(inner_y, gap, unit, items, i) == inner_y + used_space(items.take(i)) + unit
            * grow_units(items.take(i)) + gap * i,
    decreases i,
{
    if i == 0 {
        assert(items.take(0).len() == 0);
        assert(unit * 0 == 0 && gap * 0 == 0) by (nonlinear_arith);
    } else {
        lemma_child_top_sum(inner_y, gap, unit, items, i - 1);
        lemma_measure_step(items, i - 1);
        let before = grow_units(items.take(i - 1));
        let weight = grow_weight(items[i - 1].0);
        assert(unit * (before + weight) == unit * before + unit * weight) by (nonlinear_arith);
        assert(gap * i == gap * (i - 1) + gap) by (nonlinear_arith);
        assert(child_height(items[i - 1].0, unit) == fixed_length(items[i - 1].0) + unit * weight)
            by {
            assert(unit * 0 == 0) by (nonlinear_arith);
        }
    }
}

/// Children fill their container: where some child grows, the last child
/// ends at the bottom of the inner rectangle, short of it by less than one
/// unit of length per unit of weight.
pub proof fn lemma_children_fill(inner: Frame, gap: int, items: Seq<SizeInfo>)
    requires
        has_grow(items),
        grow_units(items) > 0,
    ensures
        ({
            let unit = unit_size(inner.h, gap, items);
            let last = child_frame(inner, gap, unit, items, items.len() - 1);
            inner.y + inner.h - grow_units(items) < last.y + last.h <= inner.y + inner.h
        }),
{
    let n = items.len() as int;
    let unit = unit_size(inner.h, gap, items);
    let units = grow_units(items);
    let flex = flex_space(inner.h, gap, items);
    let last = child_frame(inner, gap, unit, items, n - 1);
    assert(n >= 1);
    lemma_child_top_sum(inner.y, gap, unit, items, n);
    assert(items.take(n) == items);
    lemma_children_stack(inner, gap, unit, items, n - 1);
    assert(gap * n == gap * (n - 1) + gap) by (nonlinear_arith);
    assert(last.y + last.h == inner.y + used_space(items) + unit * units + gap * (n - 1));
    assert(flex == inner.h - used_space(items) - gap * (n - 1));
    lemma_unit_size(inner.h, gap, items);
    assert((unit + 1) * units == unit * units + units) by (nonlinear_arith);
}

/// Growing children share the flexible space: the total of their weights in
/// grow units takes up the flexible space, short of less than one unit of
/// length per unit of weight.
pub proof fn lemma_unit_size(inner_height: int, gap: int, items: Seq<SizeInfo>)
    requires
        has_grow(items),
        grow_units(items) > 0,
    ensures
        unit_size(inner_height, gap, items) * grow_units(items) <= flex_space(
            inner_height,
            gap,
            items,
        ) < (unit_size(inner_height, gap, items) + 1) * grow_units(items),
{
    crate::math::lemma_floor_div_bounds(flex_space(inner_height, gap, items), grow_units(items));
}

fn fits_wide(v: i128) -> (r: bool)
    ensures
        r == fits(v as int),
{
    i64::MIN as i128 <= v && v <= i64::MAX as i128
}

/// Lays out the children of one container inside the container's rectangle.
///
/// Returns the rectangle of each child, in order, or the reason why there is
/// none: see [`solve`].
pub fn solve_children(rect: Rect, margin: i64, gap: i64, items: &Vec<SizeInfo>) -> (r: Result<
    Vec<Rect>,
    SolveError,
>)
    ensures
        match solve(rect, margin as int, gap as int, items@) {
            Ok(rects) => r matches Ok(v) && v@ == rects,
            Err(e) => r matches Err(f) && f == e,
        },
{
    let n = items.len();
    if n == 0 {
        return Ok(Vec::new());
    }
    let ghost inner = inner_frame(rect, margin as int);
    let ix: i128 = rect.position.x as i128 + margin as i128;
    let iy: i128 = rect.position.y as i128 + margin as i128;
    let iw: i128 = rect.size.x as i128 - 2 * (margin as i128);
    let ih: i128 = rect.size.y as i128 - 2 * (margin as i128);
    if !(fits_wide(ix) && fits_wide(iy) && fits_wide(iw) && fits_wide(ih)) {
        return Err(SolveError::OutOfRange);
    }
    let (used, units, grows) = measure(items);
    let mut unit: i128 = 0;
    if grows {
        if units == 0 {
            return Err(SolveError::ZeroGrowWeight);
        }
        assert(-0x7fff_ffff_ffff_ffff_8000_0000_0000_0000 <= gap * (n - 1)
            <= 0x7fff_ffff_ffff_ffff_8000_0000_0000_0000) by (nonlinear_arith)
            requires
                -0x8000_0000_0000_0000 <= gap <= 0x8000_0000_0000_0000,
                0 <= n - 1 <= 0xffff_ffff_ffff_ffff,
        ;
        let gaps: i128 = gap as i128 * (n as i128 - 1);
        if !fits_wide(used) || !fits_wide(gaps) {
            return Err(SolveError::OutOfRange);
        }
        let flex: i128 = ih - used - gaps;
        if !fits_wide(flex) {
            return Err(SolveError::OutOfRange);
        }
        if units > i64::MAX as u128 {
            if flex >= 0 {
                unit = 0;
            } else {
                unit = -1;
            }
            proof {
                let d = units as int;
                assert(0 * d == 0 && (0 + 1) * d == d && (-1) * d == -d && (-1 + 1) * d == 0)
                    by (nonlinear_arith);
                lemma_floor_div_unique(flex as int, d, unit as int);
            }
        } else {
            unit = div_floor(flex, units as i128);
            proof {
                lemma_floor_div_magnitude(flex as int, units as int);
            }
        }
    }
    assert(unit == unit_size(inner.h, gap as int, items@));
    assert(-0x8000_0000_0000_0000 <= unit <= 0x8000_0000_0000_0000);
    let mut out: Vec<Rect> = Vec::new();
    let mut cursor: i128 = iy;
    let mut i: usize = 0;
    while i < n
        invariant
            n == items.len(),
            i <= n,
            inner == inner_frame(rect, margin as int),
            ix == inner.x,
            iy == inner.y,
            iw == inner.w,
            ih == inner.h,
            frame_fits(inner),
            has_grow(items@) ==> grow_units(items@) != 0 && flex_fits(inner.h, gap as int, items@),
            unit == unit_size(inner.h, gap as int, items@),
            -0x8000_0000_0000_0000 <= unit <= 0x8000_0000_0000_0000,
            cursor == child_top(inner.y, gap as int, unit as int, items@, i as int),
            -3 * 0x8000_0000_0000_0000 <= cursor <= 3 * 0x8000_0000_0000_0000,
            out@.len() == i,
            forall|j: int|
                0 <= j < i ==> frame_fits(
                    #[trigger] child_frame(inner, gap as int, unit as int, items@, j),
                ),
            forall|j: int|
                0 <= j < i ==> #[trigger] out@[j] == frame_rect(
                    child_frame(inner, gap as int, unit as int, items@, j),
                ),
        decreases n - i,
    {
        let (size, constraint) = items[i];
        let ghost frame = child_frame(inner, gap as int, unit as int, items@, i as int);
        let w: i128 = match constraint {
            Some(UIConstraint { width: Some(max_width) }) => if iw <= max_width as i128 {
                iw
            } else {
                max_width as i128
            },
            _ => iw,
        };
        let x: i128 = ix + (iw - w) / 2;
        let h: i128 = match size {
            UISize::Constant(s) => s as i128,
            UISize::Grow(weight) => {
                assert(-0x7fff_ffff_ffff_ffff_8000_0000_0000_0000 <= unit * weight
                    <= 0x7fff_ffff_ffff_ffff_8000_0000_0000_0000) by (nonlinear_arith)
                    requires
                        -0x8000_0000_0000_0000 <= unit <= 0x8000_0000_0000_0000,
                        0 <= weight <= 0xffff_ffff_ffff_ffff,
                ;
                unit * (weight as i128)
            },
        };
        assert(frame.x == x && frame.y == cursor && frame.w == w && frame.h == h);
        if !(fits_wide(x) && fits_wide(cursor) && fits_wide(w) && fits_wide(h)) {
            assert(!frame_fits(child_frame(inner, gap as int, unit as int, items@, i as int)));
            return Err(SolveError::OutOfRange);
        }
        out.push(
            Rect {
                position: Vec2 { x: x as i64, y: cursor as i64 },
                size: Vec2 { x: w as i64, y: h as i64 },
            },
        );
        proof {
            lemma_children_stack(inner, gap as int, unit as int, items@, i as int);
        }
        cursor = cursor + h + gap as i128;
        i = i + 1;
    }
    proof {
        let rects = Seq::new(
            items@.len(),
            |j: int| frame_rect(child_frame(inner, gap as int, unit as int, items@, j)),
        );
        assert(out@ =~= rects);
    }
    Ok(out)
}

/// Why a layout pass produced no layout.
#[derive(Copy, Clone, Debug, PartialEq, Eq, Structural)]
pub enum LayoutError {
    /// A container lists this child, and the world has no such entity.
    MissingChild(Entity),
    /// This child of a container has no size.
    MissingSize(Entity),
    /// A container has growing children whose weights add up to zero.
    ZeroGrowWeight,
    /// A length of the layout is not representable.
    OutOfRange,
    /// This container lies deeper below a root than the world has entities:
    /// the containers form a cycle.
    TooDeep(Entity),
}

/// What the layout reads of the children of a container, in order; the error
/// of the first child that is missing or has no size.
pub open spec fn size_info(nodes: Seq<Components>, children: Seq<Entity>) -> Result<
    Seq<SizeInfo>,
    LayoutError,
>
    decreases children.len(),
{
    if children.len() == 0 {
        Ok(Seq::empty())
    } else {
        let child = children.last();
        match size_info(nodes, children.drop_last()) {
            Err(e) => Err(e),
            Ok(items) => if child >= nodes.len() {
                Err(LayoutError::MissingChild(child))
            } else {
                match nodes[child as int].size {
                    None => Err(LayoutError::MissingSize(child)),
                    Some(size) => Ok(items.push((size, nodes[child as int].constraint))),
                }
            },
        }
    }
}

/// The error of a tree that stands for the error of one container.
pub open spec fn lift_error(e: SolveError) -> LayoutError {
    match e {
        SolveError::ZeroGrowWeight => LayoutError::ZeroGrowWeight,
        SolveError::OutOfRange => LayoutError::OutOfRange,
    }
}

/// The rectangles after the subtree of `container`, whose own rectangle is
/// `rect`, has been laid out on top of `rects`: each child gets its
/// rectangle from [`solve`]; a child that is a container has its own subtree
/// laid out first, before the next sibling. `depth` is the number of levels
/// that may still be entered.
pub open spec fn place(
    nodes: Seq<Components>,
    rects: Seq<Option<Rect>>,
    container: UIContainer,
    rect: Rect,
    depth: nat,
) -> Result<Seq<Option<Rect>>, LayoutError>
    decreases depth, 1nat, 0nat,
{
    match size_info(nodes, container.children@) {
        Err(e) => Err(e),
        Ok(items) => match solve(rect, container.margin as int, container.gap as int, items) {
            Err(e) => Err(lift_error(e)),
            Ok(child_rects) => place_children(
                nodes,
                rects,
                container.children@,
                child_rects,
                container.children@.len(),
                depth,
            ),
        },
    }
}

/// The rectangles after the first `count` children, with their subtrees, have
/// been laid out on top of `rects`.
pub open spec fn place_children(
    nodes: Seq<Components>,
    rects: Seq<Option<Rect>>,
    children: Seq<Entity>,
    child_rects: Seq<Rect>,
    count: nat,
    depth: nat,
) -> Result<Seq<Option<Rect>>, LayoutError>
    decreases depth, 0nat, count,
{
    if count == 0 {
        Ok(rects)
    } else {
        let child = children[count - 1];
        let child_rect = child_rects[count - 1];
        match place_children(nodes, rects, children, child_rects, (count - 1) as nat, depth) {
            Err(e) => Err(e),
            Ok(before) => match nodes[child as int].container {
                None => Ok(before.update(child as int, Some(child_rect))),
                Some(inner) => if depth == 0 {
                    Err(LayoutError::TooDeep(child))
                } else {
                    match place(nodes, before, inner, child_rect, (depth - 1) as nat) {
                        Err(e) => Err(e),
                        Ok(after) => Ok(after.update(child as int, Some(child_rect))),
                    }
                },
            },
        }
    }
}

/// Once a child is missing or has no size, no later child changes the error.
proof fn lemma_size_info_err_extends(nodes: Seq<Components>, children: Seq<Entity>, k: int)
    requires
        0 <= k <= children.len(),
        size_info(nodes, children.take(k)) is Err,
    ensures
        size_info(nodes, children) == size_info(nodes, children.take(k)),
    decreases children.len() - k,
{
    if k == children.len() {
        assert(children.take(k) == children);
    } else {
        assert(children.take(k + 1).drop_last() == children.take(k));
        lemma_size_info_err_extends(nodes, children, k + 1);
    }
}

/// Where every child is present and sized, there is one item per child.
proof fn lemma_size_info_ok(nodes: Seq<Components>, children: Seq<Entity>)
    requires
        size_info(nodes, children) is Ok,
    ensures
        size_info(nodes, children)->Ok_0.len() == children.len(),
        forall|k: int| 0 <= k < children.len() ==> #[trigger] children[k] < nodes.len(),
    decreases children.len(),
{
    if children.len() > 0 {
        lemma_size_info_ok(nodes, children.drop_last());
        assert forall|k: int| 0 <= k < children.len() implies #[trigger] children[k]
            < nodes.len() by {
            if k < children.len() - 1 {
                assert(children.drop_last()[k] == children[k]);
            }
        }
    }
}

/// Where every child is present and sized, the layout reads the size and the
/// constraint of each of them.
pub proof fn lemma_size_info_sized(nodes: Seq<Components>, children: Seq<Entity>)
    requires
        forall|k: int|
            0 <= k < children.len() ==> (#[trigger] children[k]) < nodes.len()
                && nodes[children[k] as int].size is Some,
    ensures
        size_info(nodes, children) is Ok,
        size_info(nodes, children)->Ok_0.len() == children.len(),
        forall|k: int|
            0 <= k < children.len() ==> (#[trigger] size_info(nodes, children)->Ok_0[k]) == (
                nodes[children[k] as int].size->Some_0,
                nodes[children[k] as int].constraint,
            ),
    decreases children.len(),
{
    if children.len() > 0 {
        let shorter = children.drop_last();
        assert forall|k: int| 0 <= k < shorter.len() implies (#[trigger] shorter[k]) < nodes.len()
            && nodes[shorter[k] as int].size is Some by {
            assert(shorter[k] == children[k]);
        }
        lemma_size_info_sized(nodes, shorter);
        let last = children[children.len() - 1];
        assert(last < nodes.len() && nodes[last as int].size is Some);
        assert forall|k: int| 0 <= k < children.len() implies (#[trigger] size_info(
            nodes,
            children,
        )->Ok_0[k]) == (
            nodes[children[k] as int].size->Some_0,
            nodes[children[k] as int].constraint,
        ) by {
            if k < children.len() - 1 {
                assert(shorter[k] == children[k]);
                assert(size_info(nodes, children)->Ok_0[k] == size_info(nodes, shorter)->Ok_0[k]);
            }
        }
    }
}

/// Once a child's subtree has failed, no later sibling changes the error.
proof fn lemma_place_children_err_extends(
    nodes: Seq<Components>,
    rects: Seq<Option<Rect>>,
    children: Seq<Entity>,
    child_rects: Seq<Rect>,
    k: nat,
    count: nat,
    depth: nat,
)
    requires
        k <= count,
        place_children(nodes, rects, children, child_rects, k, depth) is Err,
    ensures
        place_children(nodes, rects, children, child_rects, count, depth) == place_children(
            nodes,
            rects,
            children,
            child_rects,
            k,
            depth,
        ),
    decreases count - k,
{
    if k < count {
        lemma_place_children_err_extends(
            nodes,
            rects,
            children,
            child_rects,
            k,
            (count - 1) as nat,
            depth,
        );
    }
}

/// Reads the size and the width constraint of each child of a container.
fn collect_size_info(world: &World, children: &Vec<Entity>) -> (r: Result<
    Vec<SizeInfo>,
    LayoutError,
>)
    ensures
        match size_info(world.entities@, children@) {
            Ok(items) => r matches Ok(v) && v@ == items,
            Err(e) => r matches Err(f) && f == e,
        },
{
    let mut items: Vec<SizeInfo> = Vec::new();
    let mut k: usize = 0;
    while k < children.len()
        invariant
            k <= children.len(),
            size_info(world.entities@, children@.take(k as int)) == Ok::<
                Seq<SizeInfo>,
                LayoutError,
            >(items@),
        decreases children.len() - k,
    {
        let child = children[k];
        proof {
            assert(children@.take(k + 1).drop_last() == children@.take(k as int));
            assert(children@.take(k + 1).last() == child);
        }
        if child >= world.entities.len() {
            proof {
                lemma_size_info_err_extends(world.entities@, children@, k + 1);
            }
            return Err(LayoutError::MissingChild(child));
        }
        match world.entities[child].size {
            None => {
                proof {
                    lemma_size_info_err_extends(world.entities@, children@, k + 1);
                }
                return Err(LayoutError::MissingSize(child));
            },
            Some(size) => {
                items.push((size, world.entities[child].constraint));
            },
        }
        k = k + 1;
    }
    proof {
        assert(children@.take(children.len() as int) == children@);
    }
    Ok(items)
}

fn lift(e: SolveError) -> (r: LayoutError)
    ensures
        r == lift_error(e),
{
    match e {
        SolveError::ZeroGrowWeight => LayoutError::ZeroGrowWeight,
        SolveError::OutOfRange => LayoutError::OutOfRange,
    }
}

/// Lays out the subtree of `container`, whose own rectangle is
/// `container_rect`, and records each rectangle in `commands` under the
/// entity it belongs to.
///
/// A child that is a container has its subtree laid out before the next
/// sibling is placed. `depth` is the number of levels that may still be
/// entered below this container. On an error `commands` holds nothing of use.
pub fn calculate_and_apply_child_ui_sizes(
    container_rect: Rect,
    container: &UIContainer,
    world: &World,
    commands: &mut Vec<Option<Rect>>,
    depth: usize,
) -> (r: Result<(), LayoutError>)
    requires
        old(commands)@.len() == world.entities@.len(),
    ensures
        final(commands)@.len() == old(commands)@.len(),
        match place(world.entities@, old(commands)@, *container, container_rect, depth as nat) {
            Ok(rects) => r is Ok && final(commands)@ == rects,
            Err(e) => r matches Err(f) && f == e,
        },
    decreases depth,
{
    let ghost nodes = world.entities@;
    let ghost start = commands@;
    let items = match collect_size_info(world, &container.children) {
        Ok(items) => items,
        Err(e) => {
            return Err(e);
        },
    };
    let child_rects = match solve_children(
        container_rect,
        container.margin,
        container.gap,
        &items,
    ) {
        Ok(child_rects) => child_rects,
        Err(e) => {
            return Err(lift(e));
        },
    };
    proof {
        lemma_size_info_ok(nodes, container.children@);
    }
    let n = container.children.len();
    let mut k: usize = 0;
    while k < n
        invariant
            k <= n,
            n == container.children@.len(),
            nodes == world.entities@,
            child_rects@.len() == n,
            commands@.len() == nodes.len(),
            start == old(commands)@,
            start.len() == nodes.len(),
            forall|j: int| 0 <= j < n ==> #[trigger] container.children@[j] < nodes.len(),
            place_children(nodes, start, container.children@, child_rects@, k as nat, depth as nat)
                == Ok::<Seq<Option<Rect>>, LayoutError>(commands@),
            place(nodes, start, *container, container_rect, depth as nat) == place_children(
                nodes,
                start,
                container.children@,
                child_rects@,
                n as nat,
                depth as nat,
            ),
        decreases n - k,
    {
        let child = container.children[k];
        let child_rect = child_rects[k];
        match &world.entities[child].container {
            None => {},
            Some(inner) => {
                if depth == 0 {
                    proof {
                        lemma_place_children_err_extends(
                            nodes,
                            start,
                            container.children@,
                            child_rects@,
                            (k + 1) as nat,
                            n as nat,
                            depth as nat,
                        );
                    }
                    return Err(LayoutError::TooDeep(child));
                }
                match calculate_and_apply_child_ui_sizes(
                    child_rect,
                    inner,
                    world,
                    commands,
                    depth - 1,
                ) {
                    Ok(()) => {},
                    Err(e) => {
                        proof {
                            lemma_place_children_err_extends(
                                nodes,
                                start,
                                container.children@,
                                child_rects@,
                                (k + 1) as nat,
                                n as nat,
                                depth as nat,
                            );
                        }
                        return Err(e);
                    },
                }
            },
        }
        commands.set(child, Some(child_rect));
        k = k + 1;
    }
    Ok(())
}

/// Whether an entity starts a layout: it is marked as a root, is a container
/// and has a rectangle.
pub open spec fn is_root(c: Components) -> bool {
    c.root is Some && c.container is Some && c.rect is Some
}

/// The rectangles after the trees of the roots among the first `count`
/// entities have been laid out, in the order of the entities.
pub open spec fn layout_roots(nodes: Seq<Components>, count: nat) -> Result<
    Seq<Option<Rect>>,
    LayoutError,
>
    decreases count,
{
    if count == 0 {
        Ok(Seq::new(nodes.len(), |i: int| None))
    } else {
        let node = nodes[count - 1];
        match layout_roots(nodes, (count - 1) as nat) {
            Err(e) => Err(e),
            Ok(rects) => if is_root(node) {
                place(nodes, rects, node.container->Some_0, node.rect->Some_0, nodes.len())
            } else {
                Ok(rects)
            },
        }
    }
}

/// The layout of a world: for each entity the rectangle that the pass gives
/// it, `None` for an entity that no root reaches.
pub open spec fn layout(nodes: Seq<Components>) -> Result<Seq<Option<Rect>>, LayoutError> {
    layout_roots(nodes, nodes.len())
}

/// Once the tree of a root has failed, no later root changes the error.
proof fn lemma_layout_roots_err_extends(nodes: Seq<Components>, k: nat, count: nat)
    requires
        k <= count,
        layout_roots(nodes, k) is Err,
    ensures
        layout_roots(nodes, count) == layout_roots(nodes, k),
    decreases count - k,
{
    if k < count {
        lemma_layout_roots_err_extends(nodes, k, (count - 1) as nat);
    }
}

/// Runs the layout pass: lays out the tree below every root, from the root's
/// rectangle down, and returns the rectangle of each entity that was reached.
/// The world is not changed; on an error there is no layout at all.
pub fn layout_ui(world: &World) -> (r: Result<Vec<Option<Rect>>, LayoutError>)
    ensures
        match layout(world.entities@) {
            Ok(rects) => r matches Ok(v) && v@ == rects,
            Err(e) => r matches Err(f) && f == e,
        },
        r matches Ok(v) ==> v@.len() == world.entities@.len(),
{
    let n = world.entities.len();
    let mut commands: Vec<Option<Rect>> = Vec::new();
    let mut i: usize = 0;
    while i < n
        invariant
            i <= n,
            commands@.len() == i,
            forall|j: int| 0 <= j < i ==> #[trigger] commands@[j] is None,
        decreases n - i,
    {
        commands.push(None);
        i = i + 1;
    }
    assert(commands@ == Seq::new(world.entities@.len(), |i: int| None::<Rect>));
    let mut k: usize = 0;
    while k < n
        invariant
            k <= n,
            n == world.entities@.len(),
            commands@.len() == n,
            layout_roots(world.entities@, k as nat) == Ok::<Seq<Option<Rect>>, LayoutError>(
                commands@,
            ),
        decreases n - k,
    {
        let node = &world.entities[k];
        if node.root.is_some() {
            match (&node.container, &node.rect) {
                (Some(container), Some(rect)) => {
                    match calculate_and_apply_child_ui_sizes(
                        *rect,
                        container,
                        world,
                        &mut commands,
                        n,
                    ) {
                        Ok(()) => {},
                        Err(e) => {
                            proof {
                                lemma_layout_roots_err_extends(
                                    world.entities@,
                                    (k + 1) as nat,
                                    n as nat,
                                );
                            }
                            return Err(e);
                        },
                    }
                },
                _ => {},
            }
        }
        k = k + 1;
    }
    Ok(commands)
}

/// Whether every container lists only entities that were added before it.
/// Such containers cannot form a cycle.
pub open spec fn built_in_order(nodes: Seq<Components>) -> bool {
    forall|c: int, k: int|
        0 <= c < nodes.len() && nodes[c].container is Some && 0 <= k
            < nodes[c].container->Some_0.children@.len() ==> (
        #[trigger] nodes[c].container->Some_0.children@[k]) < c
}

/// Whether a layout failed for being too deep.
pub open spec fn is_too_deep(r: Result<Seq<Option<Rect>>, LayoutError>) -> bool {
    r matches Err(LayoutError::TooDeep(_))
}

proof fn lemma_place_in_order(
    nodes: Seq<Components>,
    rects: Seq<Option<Rect>>,
    c: int,
    rect: Rect,
    depth: nat,
)
    requires
        built_in_order(nodes),
        0 <= c < nodes.len(),
        nodes[c].container is Some,
        c < depth,
    ensures
        !is_too_deep(place(nodes, rects, nodes[c].container->Some_0, rect, depth)),
    decreases depth, 1nat, 0nat,
{
    let container = nodes[c].container->Some_0;
    match size_info(nodes, container.children@) {
        Err(e) => {
            lemma_size_info_never_too_deep(nodes, container.children@);
        },
        Ok(items) => {
            match solve(rect, container.margin as int, container.gap as int, items) {
                Err(e) => {},
                Ok(child_rects) => {
                    lemma_size_info_ok(nodes, container.children@);
                    lemma_place_children_in_order(
                        nodes,
                        rects,
                        c,
                        child_rects,
                        container.children@.len(),
                        depth,
                    );
                },
            }
        },
    }
}

proof fn lemma_size_info_never_too_deep(nodes: Seq<Components>, children: Seq<Entity>)
    ensures
        !(size_info(nodes, children) matches Err(LayoutError::TooDeep(_))),
    decreases children.len(),
{
    if children.len() > 0 {
        lemma_size_info_never_too_deep(nodes, children.drop_last());
    }
}

proof fn lemma_place_children_in_order(
    nodes: Seq<Components>,
    rects: Seq<Option<Rect>>,
    c: int,
    child_rects: Seq<Rect>,
    count: nat,
    depth: nat,
)
    requires
        built_in_order(nodes),
        0 <= c < nodes.len(),
        nodes[c].container is Some,
        c < depth,
        count <= nodes[c].container->Some_0.children@.len(),
    ensures
        !is_too_deep(
            place_children(
                nodes,
                rects,
                nodes[c].container->Some_0.children@,
                child_rects,
                count,
                depth,
            ),
        ),
    decreases depth, 0nat, count,
{
    let children = nodes[c].container->Some_0.children@;
    if count > 0 {
        lemma_place_children_in_order(nodes, rects, c, child_rects, (count - 1) as nat, depth);
        let child = children[count - 1];
        assert(child < c);
        match place_children(nodes, rects, children, child_rects, (count - 1) as nat, depth) {
            Err(e) => {},
            Ok(before) => {
                if nodes[child as int].container is Some {
                    lemma_place_in_order(
                        nodes,
                        before,
                        child as int,
                        child_rects[count - 1],
                        (depth - 1) as nat,
                    );
                }
            },
        }
    }
}

proof fn lemma_layout_roots_in_order(nodes: Seq<Components>, count: nat)
    requires
        built_in_order(nodes),
        count <= nodes.len(),
    ensures
        !is_too_deep(layout_roots(nodes, count)),
    decreases count,
{
    if count > 0 {
        lemma_layout_roots_in_order(nodes, (count - 1) as nat);
        match layout_roots(nodes, (count - 1) as nat) {
            Err(e) => {},
            Ok(rects) => {
                if is_root(nodes[count - 1]) {
                    lemma_place_in_order(
                        nodes,
                        rects,
                        count - 1,
                        nodes[count - 1].rect->Some_0,
                        nodes.len(),
                    );
                }
            },
        }
    }
}

/// A world whose containers list only entities that were added before them
/// is never too deep to lay out.
pub proof fn lemma_in_order_never_too_deep(nodes: Seq<Components>)
    requires
        built_in_order(nodes),
    ensures
        !is_too_deep(layout(nodes)),
{
    lemma_layout_roots_in_order(nodes, nodes.len());
}

} // verus!
