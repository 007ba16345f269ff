//! The play area: the game is simulated on a fixed field, and shown in the
//! largest rectangle of the field's aspect ratio that fits the window.

use vstd::prelude::*;

use crate::math::rect::scale_length;
use crate::math::{fits, lemma_floor_div_bounds};
use crate::math::{Rect, Vec2, PIXEL};

verus! {

/// The width of the simulated field.
pub const SIMULATED_WIDTH: i64 = 1920 * PIXEL;

/// The height of the simulated field.
pub const SIMULATED_HEIGHT: i64 = 1080 * PIXEL;

/// The rectangle of the window in which the game is shown. Drawing code
/// scales what it draws from the simulated field to this rectangle.
pub struct PlayArea(pub Rect);

/// Whether a window is too low for the full width at the given aspect ratio,
/// so that the play area takes the full height instead.
pub open spec fn height_bound(width: int, height: int, aspect_width: int, aspect_height: int)
    -> bool {
    width * aspect_height > height * aspect_width
}

/// The extent of the largest rectangle of the given aspect ratio that fits
/// in a window, rounded down to the unit grid.
pub open spec fn fitted_size(width: int, height: int, aspect_width: int, aspect_height: int) -> (
    int,
    int,
) {
    if height_bound(width, height, aspect_width, aspect_height) {
        (height * aspect_width / aspect_height, height)
    } else {
        (width, width * aspect_height / aspect_width)
    }
}

/// The play area of a window: the fitted rectangle, centered, with the
/// unused space split evenly and the left and top shares rounded down.
pub open spec fn resolved(width: int, height: int, aspect_width: int, aspect_height: int) -> Rect {
    let (w, h) = fitted_size(width, height, aspect_width, aspect_height);
    Rect {
        position: Vec2 { x: ((width - w) / 2) as i64, y: ((height - h) / 2) as i64 },
        size: Vec2 { x: w as i64, y: h as i64 },
    }
}

/// The fitted rectangle lies inside the window, spans it on one axis, and
/// has the aspect ratio up to the rounding of one extent.
pub proof fn lemma_fitted_size(width: int, height: int, aspect_width: int, aspect_height: int)
    requires
        width >= 0,
        height >= 0,
        aspect_width > 0,
        aspect_height > 0,
    ensures
        0 <= fitted_size(width, height, aspect_width, aspect_height).0 <= width,
        0 <= fitted_size(width, height, aspect_width, aspect_height).1 <= height,
        fitted_size(width, height, aspect_width, aspect_height).0 == width || fitted_size(
            width,
            height,
            aspect_width,
            aspect_height,
        ).1 == height,
        ({
            let (w, h) = fitted_size(width, height, aspect_width, aspect_height);
            if height_bound(width, height, aspect_width, aspect_height) {
                w * aspect_height <= h * aspect_width < (w + 1) * aspect_height
            } else {
                h * aspect_width <= w * aspect_height < (h + 1) * aspect_width
            }
        }),
{
    let (w, h) = fitted_size(width, height, aspect_width, aspect_height);
    if height_bound(width, height, aspect_width, aspect_height) {
        lemma_floor_div_bounds(height * aspect_width, aspect_height);
        assert(0 <= w <= width) by (nonlinear_arith)
            requires
                w * aspect_height <= height * aspect_width < (w + 1) * aspect_height,
                width * aspect_height > height * aspect_width,
                aspect_height > 0,
                aspect_width > 0,
                height >= 0,
        ;
    } else {
        lemma_floor_div_bounds(width * aspect_height, aspect_width);
        assert(0 <= h <= height) by (nonlinear_arith)
            requires
                h * aspect_width <= width * aspect_height < (h + 1) * aspect_width,
                width * aspect_height <= height * aspect_width,
                aspect_height > 0,
                aspect_width > 0,
                width >= 0,
        ;
    }
}

/// The play area lies inside the window and is centered in it: the margins
/// on opposite sides differ by at most one unit.
pub proof fn lemma_resolved_centered(
    width: i64,
    height: i64,
    aspect_width: int,
    aspect_height: int,
)
    requires
        width >= 0,
        height >= 0,
        aspect_width > 0,
        aspect_height > 0,
    ensures
        ({
            let area = resolved(width as int, height as int, aspect_width, aspect_height);
            let right = width - (area.position.x + area.size.x);
            let bottom = height - (area.position.y + area.size.y);
            &&& area.size.x == fitted_size(width as int, height as int, aspect_width, aspect_height).0
            &&& area.size.y == fitted_size(width as int, height as int, aspect_width, aspect_height).1
            &&& 0 <= area.position.x <= right <= area.position.x + 1
            &&& 0 <= area.position.y <= bottom <= area.position.y + 1
        }),
{
    lemma_fitted_size(width as int, height as int, aspect_width, aspect_height);
}

impl PlayArea {
    /// The play area for a window of the given extent and a field of the
    /// given aspect ratio.
    pub fn resolve(width: i64, height: i64, aspect_width: u32, aspect_height: u32) -> (area:
        PlayArea)
        requires
            width >= 0,
            height >= 0,
            aspect_width > 0,
            aspect_height > 0,
        ensures
            area.0 == resolved(
                width as int,
                height as int,
                aspect_width as int,
                aspect_height as int,
            ),
    {
        proof {
            lemma_fitted_size(
                width as int,
                height as int,
                aspect_width as int,
                aspect_height as int,
            );
        }
        assert(0 <= width * aspect_height <= 0x7fff_ffff_ffff_ffff * 0xffff_ffff) by (nonlinear_arith)
            requires
                0 <= width <= 0x7fff_ffff_ffff_ffff,
                0 < aspect_height <= 0xffff_ffff,
        ;
        assert(0 <= height * aspect_width <= 0x7fff_ffff_ffff_ffff * 0xffff_ffff) by (nonlinear_arith)
            requires
                0 <= height <= 0x7fff_ffff_ffff_ffff,
                0 < aspect_width <= 0xffff_ffff,
        ;
        let across: i128 = width as i128 * aspect_height as i128;
        let down: i128 = height as i128 * aspect_width as i128;
        let (w, h): (i128, i128) = if across > down {
            (down / aspect_height as i128, height as i128)
        } else {
            (width as i128, across / aspect_width as i128)
        };
        let x: i128 = (width as i128 - w) / 2;
        let y: i128 = (height as i128 - h) / 2;
        PlayArea(
            Rect {
                position: Vec2 { x: x as i64, y: y as i64 },
                size: Vec2 { x: w as i64, y: h as i64 },
            },
        )
    }

    /// The play area of the game, whose field is sixteen wide and nine high.
    pub fn calculate(width: i64, height: i64) -> (area: PlayArea)
        requires
            width >= 0,
            height >= 0,
        ensures
            area.0 == resolved(width as int, height as int, 16, 9),
    {
        PlayArea::resolve(width, height, 16, 9)
    }

    /// The simulated field as a rectangle.
    pub open spec fn field() -> Rect {
        Rect {
            position: Vec2 { x: 0, y: 0 },
            size: Vec2 { x: SIMULATED_WIDTH, y: SIMULATED_HEIGHT },
        }
    }

    /// Where a position on the simulated field is shown in the window.
    pub fn game_pos_to_screen_space(&self, pos: Vec2) -> (r: Vec2)
        requires
            Self::field().can_project(self.0, pos),
        ensures
            r.x == Self::field().spec_project_point(self.0, pos).0,
            r.y == Self::field().spec_project_point(self.0, pos).1,
    {
        let game_rect = Rect {
            position: Vec2 { x: 0, y: 0 },
            size: Vec2 { x: SIMULATED_WIDTH, y: SIMULATED_HEIGHT },
        };
        game_rect.project_point(&self.0, pos)
    }

    /// Where a position in the window, such as the pointer's, lies on the
    /// simulated field: `None` where the play area is empty on an axis or the
    /// position is not representable.
    pub fn screen_pos_to_game_space(&self, pos: Vec2) -> (r: Option<Vec2>)
        ensures
            r is Some <==> self.0.can_project(Self::field(), pos),
            r matches Some(p) ==> p.x == self.0.spec_project_point(Self::field(), pos).0 && p.y
                == self.0.spec_project_point(Self::field(), pos).1,
    {
        let game_rect = Rect {
            position: Vec2 { x: 0, y: 0 },
            size: Vec2 { x: SIMULATED_WIDTH, y: SIMULATED_HEIGHT },
        };
        self.0.checked_project_point(&game_rect, pos)
    }

    /// How long a length of the simulated field is in the window.
    pub fn game_scale_to_screen_scale(&self, val: i64) -> (r: i64)
        requires
            Self::field().can_scale(self.0, val),
        ensures
            r == scale_length(val as int, SIMULATED_WIDTH as int, self.0.size.x as int),
    {
        let game_rect = Rect {
            position: Vec2 { x: 0, y: 0 },
            size: Vec2 { x: SIMULATED_WIDTH, y: SIMULATED_HEIGHT },
        };
        game_rect.project_scale(&self.0, val)
    }

    /// How long a length of the simulated field is in the window.
    pub fn simulated_size_to_displayed_size(&self, sim_size: i64) -> (r: i64)
        requires
            Self::field().can_scale(self.0, sim_size),
        ensures
            r == scale_length(sim_size as int, SIMULATED_WIDTH as int, self.0.size.x as int),
    {
        self.game_scale_to_screen_scale(sim_size)
    }

    /// Where a position on the simulated field is shown in the window, both
    /// axes scaled by the ratio of the widths, as unbounded coordinates.
    pub open spec fn spec_displayed_pos(self, sim_pos: Vec2) -> (int, int) {
        (
            self.0.position.x + scale_length(
                sim_pos.x as int,
                SIMULATED_WIDTH as int,
                self.0.size.x as int,
            ),
            self.0.position.y + scale_length(
                sim_pos.y as int,
                SIMULATED_WIDTH as int,
                self.0.size.x as int,
            ),
        )
    }

    /// Where a position on the simulated field is shown in the window, both
    /// axes scaled by the ratio of the widths.
    pub fn simulated_pos_to_displayed_pos(&self, sim_pos: Vec2) -> (r: Vec2)
        requires
            fits(self.spec_displayed_pos(sim_pos).0),
            fits(self.spec_displayed_pos(sim_pos).1),
        ensures
            r.x == self.spec_displayed_pos(sim_pos).0,
            r.y == self.spec_displayed_pos(sim_pos).1,
    {
        let field = Rect {
            position: Vec2 { x: 0, y: 0 },
            size: Vec2 { x: SIMULATED_WIDTH, y: SIMULATED_WIDTH },
        };
        let target = Rect {
            position: self.0.position,
            size: Vec2 { x: self.0.size.x, y: self.0.size.x },
        };
        field.project_point(&target, sim_pos)
    }
}

/// The play area of a window of the given extent.
pub fn calculate_play_area(width: i64, height: i64) -> (area: Rect)
    requires
        width >= 0,
        height >= 0,
    ensures
        area == resolved(width as int, height as int, 16, 9),
{
    PlayArea::calculate(width, height).0
}

} // verus!
