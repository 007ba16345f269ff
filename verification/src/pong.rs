//! The game itself: two paddles and a ball on the simulated field.
//!
//! Positions move by whole length units per tick and stop at the ends of the
//! representable range.

use vstd::prelude::*;

use crate::game::{PlayArea, SIMULATED_HEIGHT, SIMULATED_WIDTH};
use crate::math::rect::scale_length;
use crate::math::{div_floor, fits, Rect, Vec2, PIXEL};
use crate::ui::draw::Circle;

verus! {

/// The height of a paddle.
pub const PADDLE_HEIGHT: i64 = 200 * PIXEL;

/// The width of a paddle.
pub const PADDLE_WIDTH: i64 = 50 * PIXEL;

/// The line on which the ball meets the player's paddle.
pub const PLAYER_X: i64 = 100 * PIXEL;

/// The line on which the ball meets the bot's paddle.
pub const BOT_X: i64 = 1820 * PIXEL;

/// How far the player's paddle moves in a tick.
pub const PADDLE_SPEED: i64 = 8 * PIXEL;

/// How far the bot's paddle moves in a tick: four fifths of the player's.
pub const BOT_SPEED: i64 = 6400;

/// How far the ball moves in a tick, along each axis.
pub const BALL_SPEED: i64 = 10 * PIXEL;

/// The radius of the ball.
pub const BALL_RADIUS: i64 = 24 * PIXEL;

/// The length nearest to `v`.
pub open spec fn saturate(v: int) -> i64 {
    if v < i64::MIN {
        i64::MIN
    } else if v > i64::MAX {
        i64::MAX
    } else {
        v as i64
    }
}

fn saturated(v: i128) -> (r: i64)
    ensures
        r == saturate(v as int),
{
    if v < i64::MIN as i128 {
        i64::MIN
    } else if v > i64::MAX as i128 {
        i64::MAX
    } else {
        v as i64
    }
}

/// The state of a game.
#[derive(Copy, Clone, Debug, PartialEq, Eq, Structural)]
pub struct Application {
    pub is_running: bool,
    /// The height of the centre of the player's paddle.
    pub player_y: i64,
    /// Where the player steers: -1 up, 1 down, 0 nowhere.
    pub player_dir: i64,
    /// The height of the centre of the bot's paddle.
    pub bot_y: i64,
    pub ball_pos: Vec2,
    pub ball_velocity: Vec2,
    pub player_score: i32,
    pub bot_score: i32,
}

/// Where the keys steer: up alone is -1, down alone is 1, anything else 0.
pub open spec fn steering(pressing_up: bool, pressing_down: bool) -> i64 {
    if pressing_up && !pressing_down {
        -1i64
    } else if pressing_down && !pressing_up {
        1i64
    } else {
        0i64
    }
}

/// Where the bot steers: towards the ball.
pub open spec fn bot_steering(ball_y: i64, bot_y: i64) -> int {
    if ball_y < bot_y {
        -1
    } else if ball_y > bot_y {
        1
    } else {
        0
    }
}

/// Whether the ball touches the top or the bottom of the field.
pub open spec fn at_boundary(ball: Vec2) -> bool {
    ball.y >= SIMULATED_HEIGHT - BALL_RADIUS || ball.y <= BALL_RADIUS
}

/// Whether the ball, moving right, meets the bot's paddle: it has reached
/// the bot's line from the left, within half a paddle and a radius of the
/// paddle's centre.
pub open spec fn hits_bot(ball: Vec2, bot_y: i64) -> bool {
    &&& ball.x < BOT_X
    &&& ball.x + BALL_RADIUS >= BOT_X
    &&& vstd::math::abs(ball.y - bot_y) < PADDLE_HEIGHT / 2 + BALL_RADIUS
}

/// Whether the ball, moving left, meets the player's paddle: it has reached
/// the player's line from the right, within a paddle and a radius of the
/// paddle's centre.
pub open spec fn hits_player(ball: Vec2, player_y: i64) -> bool {
    &&& ball.x > PLAYER_X
    &&& ball.x - BALL_RADIUS <= PLAYER_X
    &&& vstd::math::abs(ball.y - player_y) < PADDLE_HEIGHT + BALL_RADIUS
}

/// Whether the ball has left the field on the left or on the right.
pub open spec fn has_scored(ball: Vec2) -> bool {
    ball.x >= SIMULATED_WIDTH + BALL_RADIUS || ball.x <= -BALL_RADIUS
}

/// The game after a tick.
///
/// The bot's paddle follows the ball and the player's paddle the keys; the
/// ball moves by its velocity. The ball bounces off the top and the bottom
/// of the field and off a paddle that it meets. A ball that leaves the field
/// on either side comes back to the centre, and the player scores.
pub open spec fn ticked(game: Application, quit_requested: bool) -> Application {
    let bot_y = saturate(game.bot_y + bot_steering(game.ball_pos.y, game.bot_y) * BOT_SPEED);
    let player_y = saturate(game.player_y + game.player_dir * PADDLE_SPEED);
    let ball = Vec2 {
        x: saturate(game.ball_pos.x + game.ball_velocity.x),
        y: saturate(game.ball_pos.y + game.ball_velocity.y),
    };
    let velocity_y = if at_boundary(ball) {
        saturate(-game.ball_velocity.y)
    } else {
        game.ball_velocity.y
    };
    let bounces = if game.ball_velocity.x > 0 {
        hits_bot(ball, bot_y)
    } else {
        hits_player(ball, player_y)
    };
    let velocity_x = if bounces {
        saturate(-game.ball_velocity.x)
    } else {
        game.ball_velocity.x
    };
    Application {
        is_running: game.is_running && !quit_requested,
        player_y,
        player_dir: game.player_dir,
        bot_y,
        ball_pos: if has_scored(ball) {
            Vec2 { x: (SIMULATED_WIDTH / 2) as i64, y: (SIMULATED_HEIGHT / 2) as i64 }
        } else {
            ball
        },
        ball_velocity: Vec2 { x: velocity_x, y: velocity_y },
        player_score: if has_scored(ball) {
            (game.player_score + 1) as i32
        } else {
            game.player_score
        },
        bot_score: game.bot_score,
    }
}

/// Whether the ball leaves the field in the next tick.
pub open spec fn scores_next(game: Application) -> bool {
    has_scored(
        Vec2 {
            x: saturate(game.ball_pos.x + game.ball_velocity.x),
            y: saturate(game.ball_pos.y + game.ball_velocity.y),
        },
    )
}

fn distance(a: i64, b: i64) -> (d: i128)
    ensures
        d == vstd::math::abs(a - b),
{
    let diff: i128 = a as i128 - b as i128;
    if diff < 0 {
        -diff
    } else {
        diff
    }
}

/// What to draw for a game.
#[derive(Copy, Clone, Debug, PartialEq, Eq, Structural)]
pub struct Scene {
    pub play_area: Rect,
    pub player_paddle: Rect,
    pub bot_paddle: Rect,
    pub ball: Circle,
    pub player_score: i32,
    pub bot_score: i32,
}

/// The rectangle of the given extent around a centre, the left and top
/// halves rounded down, as unbounded coordinates of the top-left corner.
pub open spec fn corner_from_center(center: Vec2, size: Vec2) -> (int, int) {
    (center.x - size.x / 2, center.y - size.y / 2)
}

/// The scene of a game in a window, where every part of it is representable.
///
/// The paddles are drawn beside their lines, away from the field's centre, so
/// that the edges that the ball meets lie on the lines.
pub open spec fn scene(game: Application, width: i64, height: i64) -> Option<Scene> {
    let area = crate::game::resolved(width as int, height as int, 16, 9);
    let field = PlayArea::field();
    let paddle = Vec2 {
        x: scale_length(PADDLE_WIDTH as int, SIMULATED_WIDTH as int, area.size.x as int) as i64,
        y: scale_length(PADDLE_HEIGHT as int, SIMULATED_WIDTH as int, area.size.x as int) as i64,
    };
    let player_at = Vec2 { x: (PLAYER_X - PADDLE_WIDTH / 2) as i64, y: game.player_y };
    let bot_at = Vec2 { x: (BOT_X + PADDLE_WIDTH / 2) as i64, y: game.bot_y };
    let player = field.spec_project_point(area, player_at);
    let bot = field.spec_project_point(area, bot_at);
    let ball = field.spec_project_point(area, game.ball_pos);
    let player_center = Vec2 { x: player.0 as i64, y: player.1 as i64 };
    let bot_center = Vec2 { x: bot.0 as i64, y: bot.1 as i64 };
    let player_corner = corner_from_center(player_center, paddle);
    let bot_corner = corner_from_center(bot_center, paddle);
    if fits(player.0) && fits(player.1) && fits(bot.0) && fits(bot.1) && fits(ball.0) && fits(
        ball.1,
    ) && fits(player_corner.0) && fits(player_corner.1) && fits(bot_corner.0) && fits(
        bot_corner.1,
    ) {
        Some(
            Scene {
                play_area: area,
                player_paddle: Rect {
                    position: Vec2 { x: player_corner.0 as i64, y: player_corner.1 as i64 },
                    size: paddle,
                },
                bot_paddle: Rect {
                    position: Vec2 { x: bot_corner.0 as i64, y: bot_corner.1 as i64 },
                    size: paddle,
                },
                ball: Circle {
                    center: Vec2 { x: ball.0 as i64, y: ball.1 as i64 },
                    radius: scale_length(
                        BALL_RADIUS as int,
                        SIMULATED_WIDTH as int,
                        area.size.x as int,
                    ) as i64,
                },
                player_score: game.player_score,
                bot_score: game.bot_score,
            },
        )
    } else {
        None
    }
}

/// A length of the field is no longer in the window than the window is wide.
proof fn lemma_scaled_part_fits(length: int, width: int)
    requires
        0 <= length <= SIMULATED_WIDTH,
        0 <= width <= i64::MAX,
    ensures
        0 <= scale_length(length, SIMULATED_WIDTH as int, width) <= width,
{
    let d = SIMULATED_WIDTH as int;
    crate::math::lemma_floor_div_bounds(length * width, d);
    let q = scale_length(length, d, width);
    assert(0 <= q <= width) by (nonlinear_arith)
        requires
            q * d <= length * width < (q + 1) * d,
            0 <= length <= d,
            0 <= width,
            d > 0,
    ;
}

fn paddle_corner(center: Vec2, size: Vec2) -> (r: Option<Vec2>)
    ensures
        r is Some <==> fits(corner_from_center(center, size).0) && fits(
            corner_from_center(center, size).1,
        ),
        r matches Some(p) ==> p.x == corner_from_center(center, size).0 && p.y
            == corner_from_center(center, size).1,
{
    let left: i128 = center.x as i128 - div_floor(size.x as i128, 2);
    let top: i128 = center.y as i128 - div_floor(size.y as i128, 2);
    if left < i64::MIN as i128 || left > i64::MAX as i128 || top < i64::MIN as i128 || top
        > i64::MAX as i128 {
        None
    } else {
        Some(Vec2 { x: left as i64, y: top as i64 })
    }
}

impl Application {
    /// A game about to start: both paddles at the same height, the ball in
    /// the top left, moving down and to the right.
    pub fn new() -> (game: Application)
        ensures
            game == (Application {
                is_running: true,
                player_y: (400 * PIXEL) as i64,
                player_dir: 0,
                bot_y: (400 * PIXEL) as i64,
                ball_pos: Vec2 { x: (200 * PIXEL) as i64, y: (200 * PIXEL) as i64 },
                ball_velocity: Vec2 { x: BALL_SPEED, y: BALL_SPEED },
                player_score: 0,
                bot_score: 0,
            }),
    {
        Application {
            is_running: true,
            player_y: 400 * PIXEL,
            player_dir: 0,
            bot_y: 400 * PIXEL,
            ball_pos: Vec2 { x: 200 * PIXEL, y: 200 * PIXEL },
            ball_velocity: Vec2 { x: BALL_SPEED, y: BALL_SPEED },
            player_score: 0,
            bot_score: 0,
        }
    }

    /// Steers the player's paddle by the two keys.
    pub fn handle_input(&mut self, pressing_up: bool, pressing_down: bool)
        ensures
            *final(self) == (Application {
                player_dir: steering(pressing_up, pressing_down),
                ..*old(self)
            }),
    {
        let dir: i64 = match (pressing_up, pressing_down) {
            (true, false) => -1,
            (false, true) => 1,
            _ => 0,
        };
        self.player_dir = dir;
    }

    /// Advances the game by one tick; `quit_requested` says whether the
    /// window was asked to close.
    pub fn tick(&mut self, quit_requested: bool)
        requires
            scores_next(*old(self)) ==> old(self).player_score < i32::MAX,
        ensures
            *final(self) == ticked(*old(self), quit_requested),
    {
        if quit_requested {
            self.is_running = false;
        }
        let bot_dir: i128 = if self.ball_pos.y < self.bot_y {
            -1
        } else if self.ball_pos.y > self.bot_y {
            1
        } else {
            0
        };
        self.bot_y = saturated(self.bot_y as i128 + bot_dir * BOT_SPEED as i128);
        assert(-0x8000_0000_0000_0000 * 8000 <= self.player_dir * PADDLE_SPEED
            <= 0x8000_0000_0000_0000 * 8000) by (nonlinear_arith)
            requires
                -0x8000_0000_0000_0000 <= self.player_dir <= 0x8000_0000_0000_0000,
                PADDLE_SPEED == 8000,
        ;
        self.player_y = saturated(
            self.player_y as i128 + self.player_dir as i128 * PADDLE_SPEED as i128,
        );
        self.ball_pos = Vec2 {
            x: saturated(self.ball_pos.x as i128 + self.ball_velocity.x as i128),
            y: saturated(self.ball_pos.y as i128 + self.ball_velocity.y as i128),
        };
        let moving_right = self.ball_velocity.x > 0;

        // Top and bottom boundary collisions
        if self.ball_pos.y >= SIMULATED_HEIGHT - BALL_RADIUS || self.ball_pos.y <= BALL_RADIUS {
            self.ball_velocity.y = saturated(-(self.ball_velocity.y as i128));
        }
        // Paddle collisions

        if moving_right {
            // Bot paddle
            if self.ball_pos.x < BOT_X && self.ball_pos.x as i128 + BALL_RADIUS as i128
                >= BOT_X as i128 {
                let dist_to_paddle = distance(self.ball_pos.y, self.bot_y);
                let hits_paddle = dist_to_paddle < (PADDLE_HEIGHT / 2 + BALL_RADIUS) as i128;

                if hits_paddle {
                    self.ball_velocity.x = saturated(-(self.ball_velocity.x as i128));
                }
            }
        } else {
            // Player paddle
            if self.ball_pos.x > PLAYER_X && self.ball_pos.x as i128 - BALL_RADIUS as i128
                <= PLAYER_X as i128 {
                let dist_to_paddle = distance(self.ball_pos.y, self.player_y);
                let hits_paddle = dist_to_paddle < (PADDLE_HEIGHT + BALL_RADIUS) as i128;

                if hits_paddle {
                    self.ball_velocity.x = saturated(-(self.ball_velocity.x as i128));
                }
            }
        }
        if self.ball_pos.x >= SIMULATED_WIDTH + BALL_RADIUS || self.ball_pos.x <= -BALL_RADIUS {
            // The ball has scored: back to the centre.
            self.ball_pos = Vec2 { x: SIMULATED_WIDTH / 2, y: SIMULATED_HEIGHT / 2 };
            self.player_score = self.player_score + 1;
        }
    }

    /// Works out what to draw in a window of the given extent: `None` where
    /// a part of the scene is not representable.
    pub fn render(&self, screen_width: i64, screen_height: i64) -> (r: Option<Scene>)
        requires
            screen_width >= 0,
            screen_height >= 0,
        ensures
            r == scene(*self, screen_width, screen_height),
    {
        let play_area = PlayArea::calculate(screen_width, screen_height);
        proof {
            crate::game::lemma_fitted_size(screen_width as int, screen_height as int, 16, 9);
            lemma_scaled_part_fits(PADDLE_HEIGHT as int, play_area.0.size.x as int);
            lemma_scaled_part_fits(PADDLE_WIDTH as int, play_area.0.size.x as int);
            lemma_scaled_part_fits(BALL_RADIUS as int, play_area.0.size.x as int);
        }
        let scaled_paddle_height = play_area.game_scale_to_screen_scale(PADDLE_HEIGHT);
        let scaled_paddle_width = play_area.game_scale_to_screen_scale(PADDLE_WIDTH);
        let scaled_paddle_size = Vec2 { x: scaled_paddle_width, y: scaled_paddle_height };
        let scaled_ball_radius = play_area.game_scale_to_screen_scale(BALL_RADIUS);
        let field = Rect {
            position: Vec2 { x: 0, y: 0 },
            size: Vec2 { x: SIMULATED_WIDTH, y: SIMULATED_HEIGHT },
        };

        // The paddles are shifted so that they line up with the lines used
        // for collision checking.
        let player_screen_pos = match field.checked_project_point(
            &play_area.0,
            Vec2 { x: PLAYER_X - PADDLE_WIDTH / 2, y: self.player_y },
        ) {
            Some(p) => p,
            None => {
                return None;
            },
        };
        let bot_screen_pos = match field.checked_project_point(
            &play_area.0,
            Vec2 { x: BOT_X + PADDLE_WIDTH / 2, y: self.bot_y },
        ) {
            Some(p) => p,
            None => {
                return None;
            },
        };
        let ball_screen_pos = match field.checked_project_point(&play_area.0, self.ball_pos) {
            Some(p) => p,
            None => {
                return None;
            },
        };
        let player_corner = match paddle_corner(player_screen_pos, scaled_paddle_size) {
            Some(p) => p,
            None => {
                return None;
            },
        };
        let bot_corner = match paddle_corner(bot_screen_pos, scaled_paddle_size) {
            Some(p) => p,
            None => {
                return None;
            },
        };
        Some(
            Scene {
                play_area: play_area.0,
                player_paddle: Rect { position: player_corner, size: scaled_paddle_size },
                bot_paddle: Rect { position: bot_corner, size: scaled_paddle_size },
                ball: Circle { center: ball_screen_pos, radius: scaled_ball_radius },
                player_score: self.player_score,
                bot_score: self.bot_score,
            },
        )
    }
}

} // verus!
