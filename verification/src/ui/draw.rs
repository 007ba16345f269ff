//! What to draw for a button and where to put a line of text. The drawing
//! itself, and the easing of the animations, belong to the rendering layer.

use vstd::prelude::*;

use crate::input::MousePosition;
use crate::math::{div_floor, fits, floor_div};
use crate::math::{Rect, Vec2, PIXEL};
use crate::ui::button::{Button, UIState};

verus! {

/// The value that stands for 1 in an eased animation value.
pub const EASE_ONE: i64 = 1000;

/// The radius of the largest ring around the pointer and of the click effect
/// at its widest.
pub const RING_RADIUS: i64 = 64 * PIXEL;

/// A filled circle.
#[derive(Copy, Clone, Debug, PartialEq, Eq, Structural)]
pub struct Circle {
    pub center: Vec2,
    pub radius: i64,
}

/// The rings around the pointer: each half as wide as the one before.
#[derive(Copy, Clone, Debug, PartialEq, Eq, Structural)]
pub struct Rings {
    pub outer: Circle,
    pub middle: Circle,
    pub inner: Circle,
}

/// The rings around a pointer at the given place.
pub open spec fn rings_around(pointer: Vec2) -> Rings {
    Rings {
        outer: Circle { center: pointer, radius: RING_RADIUS },
        middle: Circle { center: pointer, radius: (RING_RADIUS / 2) as i64 },
        inner: Circle { center: pointer, radius: (RING_RADIUS / 4) as i64 },
    }
}

/// A straight line between two points.
#[derive(Copy, Clone, Debug, PartialEq, Eq, Structural)]
pub struct Line {
    pub from: Vec2,
    pub to: Vec2,
}

/// The shapes of one button, back to front.
#[derive(Copy, Clone, Debug, PartialEq, Eq, Structural)]
pub struct ButtonGraphics {
    /// The button itself.
    pub base: Rect,
    /// The overlay that sweeps in from the left while the button is hovered.
    pub overlay: Rect,
    /// The line near the top edge, as wide as the overlay.
    pub top_line: Line,
    /// The line near the bottom edge, as wide as the overlay.
    pub bottom_line: Line,
    /// Three rings around the pointer, while the button is hovered or pressed.
    pub rings: Option<Rings>,
    /// The click effect, spreading from where the button was pressed.
    pub click: Circle,
    /// The opacity of the click effect, out of `EASE_ONE`.
    pub click_alpha: i64,
}

/// The width of the overlay: the button's width times the eased transition.
pub open spec fn overlay_width(rect: Rect, sweep: i64) -> int {
    floor_div(rect.size.x * sweep, EASE_ONE as int)
}

/// The distance of the two lines from the edges: a tenth of the height.
pub open spec fn line_spacing(rect: Rect) -> int {
    rect.size.y / 10
}

/// The radius of the click effect: `RING_RADIUS` times the eased progress.
pub open spec fn click_radius(spread: i64) -> int {
    floor_div(spread * RING_RADIUS, EASE_ONE as int)
}

/// Whether every coordinate of a button's shapes is representable.
pub open spec fn drawable(rect: Rect, sweep: i64, spread: i64) -> bool {
    &&& fits(overlay_width(rect, sweep))
    &&& fits(rect.position.x + overlay_width(rect, sweep))
    &&& fits(rect.position.y + line_spacing(rect))
    &&& fits(rect.position.y + rect.size.y - line_spacing(rect))
    &&& fits(click_radius(spread))
    &&& fits(EASE_ONE - spread)
}

/// The shapes of a button, given the eased values of its two animations out
/// of `EASE_ONE`: `sweep` for the hover transition, `spread` for the click
/// effect.
pub open spec fn graphics(rect: Rect, button: Button, pointer: Vec2, sweep: i64, spread: i64)
    -> ButtonGraphics {
    let width = overlay_width(rect, sweep);
    let top = rect.position.y + line_spacing(rect);
    let bottom = rect.position.y + rect.size.y - line_spacing(rect);
    let right = rect.position.x + width;
    ButtonGraphics {
        base: rect,
        overlay: Rect {
            position: rect.position,
            size: Vec2 { x: width as i64, y: rect.size.y },
        },
        top_line: Line {
            from: Vec2 { x: rect.position.x, y: top as i64 },
            to: Vec2 { x: right as i64, y: top as i64 },
        },
        bottom_line: Line {
            from: Vec2 { x: rect.position.x, y: bottom as i64 },
            to: Vec2 { x: right as i64, y: bottom as i64 },
        },
        rings: if button.state == UIState::Normal {
            None
        } else {
            Some(rings_around(pointer))
        },
        click: Circle { center: button.click_pos, radius: click_radius(spread) as i64 },
        click_alpha: (EASE_ONE - spread) as i64,
    }
}

fn narrow(v: i128) -> (r: Option<i64>)
    ensures
        r is Some <==> fits(v as int),
        r matches Some(n) ==> n == v,
{
    if i64::MIN as i128 <= v && v <= i64::MAX as i128 {
        Some(v as i64)
    } else {
        None
    }
}

/// Works out the shapes to draw for a button: `None` where a coordinate is
/// not representable.
pub fn draw_buttons(
    rect: &Rect,
    button: &Button,
    mouse_position: &MousePosition,
    sweep: i64,
    spread: i64,
) -> (r: Option<ButtonGraphics>)
    ensures
        r is Some <==> drawable(*rect, sweep, spread),
        r matches Some(g) ==> g == graphics(*rect, *button, mouse_position.0, sweep, spread),
{
    assert(-0x4000_0000_0000_0000_0000_0000_0000_0000 <= rect.size.x * sweep
        <= 0x4000_0000_0000_0000_0000_0000_0000_0000) by (nonlinear_arith)
        requires
            -0x8000_0000_0000_0000 <= rect.size.x <= 0x8000_0000_0000_0000,
            -0x8000_0000_0000_0000 <= sweep <= 0x8000_0000_0000_0000,
    ;
    let width_wide: i128 = div_floor(rect.size.x as i128 * sweep as i128, EASE_ONE as i128);
    let spacing: i128 = div_floor(rect.size.y as i128, 10);
    let radius_wide: i128 = div_floor(spread as i128 * RING_RADIUS as i128, EASE_ONE as i128);
    proof {
        crate::math::lemma_floor_div_magnitude(rect.size.x * sweep, EASE_ONE as int);
        crate::math::lemma_floor_div_magnitude(rect.size.y as int, 10);
    }
    let width = match narrow(width_wide) {
        Some(v) => v,
        None => {
            return None;
        },
    };
    let right = match narrow(rect.position.x as i128 + width_wide) {
        Some(v) => v,
        None => {
            return None;
        },
    };
    let top = match narrow(rect.position.y as i128 + spacing) {
        Some(v) => v,
        None => {
            return None;
        },
    };
    let bottom = match narrow(rect.position.y as i128 + rect.size.y as i128 - spacing) {
        Some(v) => v,
        None => {
            return None;
        },
    };
    let radius = match narrow(radius_wide) {
        Some(v) => v,
        None => {
            return None;
        },
    };
    let alpha = match narrow(EASE_ONE as i128 - spread as i128) {
        Some(v) => v,
        None => {
            return None;
        },
    };
    let rings = match button.state {
        UIState::Normal => None,
        UIState::Hover | UIState::Click => Some(
            Rings {
                outer: Circle { center: mouse_position.0, radius: RING_RADIUS },
                middle: Circle { center: mouse_position.0, radius: RING_RADIUS / 2 },
                inner: Circle { center: mouse_position.0, radius: RING_RADIUS / 4 },
            },
        ),
    };
    Some(
        ButtonGraphics {
            base: *rect,
            overlay: Rect { position: rect.position, size: Vec2 { x: width, y: rect.size.y } },
            top_line: Line {
                from: Vec2 { x: rect.position.x, y: top },
                to: Vec2 { x: right, y: top },
            },
            bottom_line: Line {
                from: Vec2 { x: rect.position.x, y: bottom },
                to: Vec2 { x: right, y: bottom },
            },
            rings,
            click: Circle { center: button.click_pos, radius },
            click_alpha: alpha,
        },
    )
}

/// Where a line of text of the given width starts so that it is centered in
/// the rectangle, as unbounded coordinates: half the width to the left of
/// the centre, on the centre's height.
pub open spec fn text_origin(rect: Rect, text_width: i64) -> (int, int) {
    (rect.spec_center().0 - text_width / 2, rect.spec_center().1)
}

/// Works out where to draw a line of text that was measured to be
/// `text_width` wide: `None` where the place is not representable.
pub fn draw_centered_text(rect: &Rect, text_width: i64) -> (r: Option<Vec2>)
    ensures
        r is Some <==> fits(text_origin(*rect, text_width).0) && fits(
            text_origin(*rect, text_width).1,
        ),
        r matches Some(p) ==> p.x == text_origin(*rect, text_width).0 && p.y == text_origin(
            *rect,
            text_width,
        ).1,
{
    let cx: i128 = rect.position.x as i128 + div_floor(rect.size.x as i128, 2);
    let cy: i128 = rect.position.y as i128 + div_floor(rect.size.y as i128, 2);
    let x = match narrow(cx - div_floor(text_width as i128, 2)) {
        Some(v) => v,
        None => {
            return None;
        },
    };
    let y = match narrow(cy) {
        Some(v) => v,
        None => {
            return None;
        },
    };
    Some(Vec2 { x, y })
}

} // verus!
