//! Axis-aligned rectangles and the affine mapping between two of them.

use vstd::prelude::*;

use super::vec2::Vec2;
use super::{
    div_floor, fits, floor_div, lemma_floor_div_magnitude, lemma_floor_div_multiple,
    lemma_floor_div_unique,
};

verus! {

/// An axis-aligned rectangle: the top-left corner and the extent.
#[derive(Copy, Clone, Debug, PartialEq, Eq, Structural)]
pub struct Rect {
    pub position: Vec2,
    pub size: Vec2,
}

/// Where a coordinate of the source interval lands in the destination
/// interval: the offset from the source origin, scaled by the ratio of the
/// extents and rounded down, then moved to the destination origin.
pub open spec fn project_axis(
    point: int,
    src_origin: int,
    src_extent: int,
    dst_origin: int,
    dst_extent: int,
) -> int {
    dst_origin + floor_div((point - src_origin) * dst_extent, src_extent)
}

/// A length scaled by the ratio of two extents, rounded down.
pub open spec fn scale_length(length: int, src_extent: int, dst_extent: int) -> int {
    floor_div(length * dst_extent, src_extent)
}

fn project_axis_wide(
    point: i64,
    src_origin: i64,
    src_extent: i64,
    dst_origin: i64,
    dst_extent: i64,
) -> (r: i128)
    requires
        src_extent != 0,
    ensures
        r == project_axis(
            point as int,
            src_origin as int,
            src_extent as int,
            dst_origin as int,
            dst_extent as int,
        ),
{
    let offset: i128 = point as i128 - src_origin as i128;
    assert(-0x1_0000_0000_0000_0000 < offset < 0x1_0000_0000_0000_0000);
    assert(-0x7fff_ffff_ffff_ffff_8000_0000_0000_0000 <= offset * dst_extent
        <= 0x7fff_ffff_ffff_ffff_8000_0000_0000_0000) by (nonlinear_arith)
        requires
            -0x1_0000_0000_0000_0000 < offset < 0x1_0000_0000_0000_0000,
            -0x8000_0000_0000_0000 <= dst_extent < 0x8000_0000_0000_0000,
    ;
    let scaled: i128 = offset * (dst_extent as i128);
    let q: i128 = div_floor(scaled, src_extent as i128);
    proof {
        lemma_floor_div_magnitude(scaled as int, src_extent as int);
    }
    dst_origin as i128 + q
}

impl Rect {
    /// The rectangle with the given top-left corner and extent.
    pub fn new(position: Vec2, size: Vec2) -> (r: Rect)
        ensures
            r.position == position,
            r.size == size,
    {
        Rect { position, size }
    }

    /// The horizontal position of the left edge.
    pub fn x(&self) -> (v: i64)
        ensures
            v == self.position.x,
    {
        self.position.x
    }

    /// The vertical position of the top edge.
    pub fn y(&self) -> (v: i64)
        ensures
            v == self.position.y,
    {
        self.position.y
    }

    /// The width, going to the right.
    pub fn w(&self) -> (v: i64)
        ensures
            v == self.size.x,
    {
        self.size.x
    }

    /// The height, going down.
    pub fn h(&self) -> (v: i64)
        ensures
            v == self.size.y,
    {
        self.size.y
    }

    /// Whether `point` lies inside: on or after the left and top edges, and
    /// before the right and bottom edges.
    pub open spec fn spec_contains(self, point: Vec2) -> bool {
        &&& self.position.x <= point.x < self.position.x + self.size.x
        &&& self.position.y <= point.y < self.position.y + self.size.y
    }

    /// Checks whether the rectangle contains a point.
    pub fn contains(&self, point: Vec2) -> (r: bool)
        ensures
            r == self.spec_contains(point),
    {
        point.x >= self.position.x && (point.x as i128) < self.position.x as i128
            + self.size.x as i128 && point.y >= self.position.y && (point.y as i128)
            < self.position.y as i128 + self.size.y as i128
    }

    /// The centre, rounded down to the unit grid, as unbounded coordinates.
    pub open spec fn spec_center(self) -> (int, int) {
        (self.position.x + self.size.x / 2, self.position.y + self.size.y / 2)
    }

    /// Whether the centre is representable.
    pub open spec fn has_center(self) -> bool {
        fits(self.spec_center().0) && fits(self.spec_center().1)
    }

    /// The centre of the rectangle, rounded down to the unit grid.
    pub fn center(&self) -> (c: Vec2)
        requires
            self.has_center(),
        ensures
            c.x == self.spec_center().0,
            c.y == self.spec_center().1,
    {
        let cx: i128 = self.position.x as i128 + div_floor(self.size.x as i128, 2);
        let cy: i128 = self.position.y as i128 + div_floor(self.size.y as i128, 2);
        Vec2 { x: cx as i64, y: cy as i64 }
    }

    /// The image of `point` under the affine map that carries `self` onto
    /// `other`, as a pair of unbounded coordinates.
    pub open spec fn spec_project_point(self, other: Rect, point: Vec2) -> (int, int) {
        (
            project_axis(
                point.x as int,
                self.position.x as int,
                self.size.x as int,
                other.position.x as int,
                other.size.x as int,
            ),
            project_axis(
                point.y as int,
                self.position.y as int,
                self.size.y as int,
                other.position.y as int,
                other.size.y as int,
            ),
        )
    }

    /// Whether `point` can be projected from `self` onto `other`: both source
    /// extents are nonzero and the image is representable.
    pub open spec fn can_project(self, other: Rect, point: Vec2) -> bool {
        &&& self.size.x != 0
        &&& self.size.y != 0
        &&& fits(self.spec_project_point(other, point).0)
        &&& fits(self.spec_project_point(other, point).1)
    }

    /// Maps a position on this rectangle to the corresponding position
    /// on `other`: a point in the centre of this rectangle lands in the centre
    /// of the other one, a corner on the same corner.
    pub fn project_point(&self, other: &Rect, point: Vec2) -> (r: Vec2)
        requires
            self.can_project(*other, point),
        ensures
            r.x == self.spec_project_point(*other, point).0,
            r.y == self.spec_project_point(*other, point).1,
    {
        let x = project_axis_wide(
            point.x,
            self.position.x,
            self.size.x,
            other.position.x,
            other.size.x,
        );
        let y = project_axis_wide(
            point.y,
            self.position.y,
            self.size.y,
            other.position.y,
            other.size.y,
        );
        Vec2 { x: x as i64, y: y as i64 }
    }

    /// As [`Rect::project_point`], for any input: `None` when a source extent
    /// is zero or the image is not representable.
    pub fn checked_project_point(&self, other: &Rect, point: Vec2) -> (r: Option<Vec2>)
        ensures
            r is Some <==> self.can_project(*other, point),
            r matches Some(p) ==> p.x == self.spec_project_point(*other, point).0 && p.y
                == self.spec_project_point(*other, point).1,
    {
        if self.size.x == 0 || self.size.y == 0 {
            return None;
        }
        let x = project_axis_wide(
            point.x,
            self.position.x,
            self.size.x,
            other.position.x,
            other.size.x,
        );
        let y = project_axis_wide(
            point.y,
            self.position.y,
            self.size.y,
            other.position.y,
            other.size.y,
        );
        if x < i64::MIN as i128 || x > i64::MAX as i128 || y < i64::MIN as i128 || y
            > i64::MAX as i128 {
            return None;
        }
        Some(Vec2 { x: x as i64, y: y as i64 })
    }
}

impl Rect {
    /// Whether `length` can be scaled from `self` to `other`: the source
    /// width is nonzero and the scaled length is representable.
    pub open spec fn can_scale(self, other: Rect, length: i64) -> bool {
        &&& self.size.x != 0
        &&& fits(scale_length(length as int, self.size.x as int, other.size.x as int))
    }

    /// Scales a length on this rectangle to the corresponding length on
    /// `other`, by the ratio of the widths.
    pub fn project_scale(&self, other: &Rect, length: i64) -> (r: i64)
        requires
            self.can_scale(*other, length),
        ensures
            r == scale_length(length as int, self.size.x as int, other.size.x as int),
    {
        project_axis_wide(length, 0, self.size.x, 0, other.size.x) as i64
    }

    /// As [`Rect::project_scale`], for any input: `None` when the source
    /// width is zero or the scaled length is not representable.
    pub fn checked_project_scale(&self, other: &Rect, length: i64) -> (r: Option<i64>)
        ensures
            r is Some <==> self.can_scale(*other, length),
            r matches Some(v) ==> v == scale_length(
                length as int,
                self.size.x as int,
                other.size.x as int,
            ),
    {
        if self.size.x == 0 {
            return None;
        }
        let v = project_axis_wide(length, 0, self.size.x, 0, other.size.x);
        if v < i64::MIN as i128 || v > i64::MAX as i128 {
            return None;
        }
        Some(v as i64)
    }
}

/// Projecting a rectangle onto itself leaves every point where it is.
pub proof fn lemma_project_identity(a: Rect, p: Vec2)
    requires
        a.size.x != 0,
        a.size.y != 0,
    ensures
        a.spec_project_point(a, p) == (p.x as int, p.y as int),
        a.can_project(a, p),
{
    lemma_floor_div_multiple(p.x - a.position.x, a.size.x as int);
    lemma_floor_div_multiple(p.y - a.position.y, a.size.y as int);
}

/// Half of an even extent lands on half of the other extent, rounded down.
proof fn lemma_half_extent(half: int, extent: int)
    requires
        half != 0,
    ensures
        floor_div(half * extent, 2 * half) == extent / 2,
{
    let q = extent / 2;
    let r = extent % 2;
    vstd::arithmetic::div_mod::lemma_fundamental_div_mod(extent, 2);
    let h = if half > 0 {
        half
    } else {
        -half
    };
    assert(q * (2 * h) <= h * extent < (q + 1) * (2 * h)) by (nonlinear_arith)
        requires
            h > 0,
            extent == 2 * q + r,
            0 <= r < 2,
    ;
    lemma_floor_div_unique(h * extent, 2 * h, q);
    if half < 0 {
        assert(-(half * extent) == h * extent) by (nonlinear_arith)
            requires
                h == -half,
        ;
    }
}

/// The centre of the source lands on the centre of the destination, where
/// the source's centre lies on the unit grid: both of its extents are even.
pub proof fn lemma_project_center(a: Rect, b: Rect)
    requires
        a.size.x != 0,
        a.size.y != 0,
        a.size.x % 2 == 0,
        a.size.y % 2 == 0,
    ensures
        project_axis(
            a.spec_center().0,
            a.position.x as int,
            a.size.x as int,
            b.position.x as int,
            b.size.x as int,
        ) == b.spec_center().0,
        project_axis(
            a.spec_center().1,
            a.position.y as int,
            a.size.y as int,
            b.position.y as int,
            b.size.y as int,
        ) == b.spec_center().1,
{
    lemma_half_extent(a.size.x / 2, b.size.x as int);
    lemma_half_extent(a.size.y / 2, b.size.y as int);
}

/// Whether the centre of an interval of extent `src` lands on the centre of
/// an interval of extent `dst`, for a positive `src` and a `dst` that is not
/// negative: the source's centre lies on the unit grid, or the destination
/// is empty, or its centre is rounded down as the source's is and it is no
/// longer than the source.
pub open spec fn centers_meet(src: int, dst: int) -> bool {
    src % 2 == 0 || dst == 0 || (dst % 2 == 1 && dst <= src)
}

/// For rectangles with positive source extent and a destination extent that
/// is not negative, the centre of the source lands on the centre of the
/// destination exactly where [`centers_meet`] holds; elsewhere it lands
/// before it.
pub proof fn lemma_project_center_exact(
    src_origin: int,
    src_extent: int,
    dst_origin: int,
    dst_extent: int,
)
    requires
        src_extent > 0,
        dst_extent >= 0,
    ensures
        centers_meet(src_extent, dst_extent) <==> project_axis(
            src_origin + src_extent / 2,
            src_origin,
            src_extent,
            dst_origin,
            dst_extent,
        ) == dst_origin + dst_extent / 2,
        project_axis(src_origin + src_extent / 2, src_origin, src_extent, dst_origin, dst_extent)
            <= dst_origin + dst_extent / 2,
{
    let s = src_extent;
    let t = dst_extent;
    let h = s / 2;
    let q = t / 2;
    let p = floor_div(h * t, s);
    super::lemma_floor_div_bounds(h * t, s);
    if s % 2 == 0 {
        lemma_half_extent(h, t);
    } else {
        assert(s == 2 * h + 1);
        if t % 2 == 0 {
            assert(t == 2 * q);
            assert(h * t == q * s - q) by (nonlinear_arith)
                requires
                    s == 2 * h + 1,
                    t == 2 * q,
            ;
            if q > 0 {
                assert(p < q) by (nonlinear_arith)
                    requires
                        p * s <= h * t,
                        h * t == q * s - q,
                        q > 0,
                        s > 0,
                ;
            } else {
                assert(h * t == 0);
                lemma_floor_div_unique(0, s, 0);
            }
        } else {
            assert(t == 2 * q + 1);
            assert(h * t == q * s + h - q) by (nonlinear_arith)
                requires
                    s == 2 * h + 1,
                    t == 2 * q + 1,
            ;
            if t <= s {
                assert(q * s <= h * t < (q + 1) * s) by (nonlinear_arith)
                    requires
                        h * t == q * s + h - q,
                        0 <= q <= h,
                        s == 2 * h + 1,
                ;
                lemma_floor_div_unique(h * t, s, q);
            } else {
                assert(p < q) by (nonlinear_arith)
                    requires
                        p * s <= h * t,
                        h * t == q * s + h - q,
                        q > h,
                        s > 0,
                ;
            }
        }
    }
}

/// Projecting onto a rectangle `k` times the size places a point at `k`
/// times its offset from the origin.
pub proof fn lemma_project_scaled(a: Rect, b: Rect, k: int, p: Vec2)
    requires
        a.size.x != 0,
        a.size.y != 0,
        b.size.x == k * a.size.x,
        b.size.y == k * a.size.y,
    ensures
        a.spec_project_point(b, p).0 == b.position.x + k * (p.x - a.position.x),
        a.spec_project_point(b, p).1 == b.position.y + k * (p.y - a.position.y),
{
    let dx = p.x - a.position.x;
    let dy = p.y - a.position.y;
    assert(dx * (k * a.size.x) == (k * dx) * a.size.x) by (nonlinear_arith);
    assert(dy * (k * a.size.y) == (k * dy) * a.size.y) by (nonlinear_arith);
    lemma_floor_div_multiple(k * dx, a.size.x as int);
    lemma_floor_div_multiple(k * dy, a.size.y as int);
}

/// The corners of the source land on the corners of the destination.
pub proof fn lemma_project_corners(a: Rect, b: Rect)
    requires
        a.size.x != 0,
        a.size.y != 0,
    ensures
        project_axis(
            a.position.x as int,
            a.position.x as int,
            a.size.x as int,
            b.position.x as int,
            b.size.x as int,
        ) == b.position.x,
        project_axis(
            a.position.x + a.size.x,
            a.position.x as int,
            a.size.x as int,
            b.position.x as int,
            b.size.x as int,
        ) == b.position.x + b.size.x,
        project_axis(
            a.position.y as int,
            a.position.y as int,
            a.size.y as int,
            b.position.y as int,
            b.size.y as int,
        ) == b.position.y,
        project_axis(
            a.position.y + a.size.y,
            a.position.y as int,
            a.size.y as int,
            b.position.y as int,
            b.size.y as int,
        ) == b.position.y + b.size.y,
{
    assert(0 * b.size.x == 0 * a.size.x) by (nonlinear_arith);
    assert(0 * b.size.y == 0 * a.size.y) by (nonlinear_arith);
    assert(a.size.x * b.size.x == b.size.x * a.size.x) by (nonlinear_arith);
    assert(a.size.y * b.size.y == b.size.y * a.size.y) by (nonlinear_arith);
    lemma_floor_div_multiple(0, a.size.x as int);
    lemma_floor_div_multiple(0, a.size.y as int);
    lemma_floor_div_multiple(b.size.x as int, a.size.x as int);
    lemma_floor_div_multiple(b.size.y as int, a.size.y as int);
}

} // verus!
